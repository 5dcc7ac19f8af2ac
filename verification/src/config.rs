//! Credentials and configuration.
//!
//! Credentials are named profiles, each an API key, a region and a write
//! flag, kept in name order. A legacy single-key file becomes the `default`
//! profile. The runtime configuration is resolved with the precedence CLI
//! flag > environment variable > profile, and records which of them supplied
//! the key. Reading the file and the environment is the binary's job; the
//! values it found are handed in here.

use vstd::prelude::*;
use crate::cli::{log_level_name, LogLevel, OutputFormat};
use crate::client::debug_text;
use crate::json::str_eq;
use crate::resources::texts;
use crate::text::{chars_lt, chars_of, lemma_seq_lt_asym, lemma_seq_lt_total, lemma_seq_lt_trans, push_str, seq_lt};

verus! {

/// The profile used when none is selected, and the one a legacy file
/// becomes.
pub const DEFAULT_PROFILE: &'static str = "default";

/// The region used when neither a flag, the environment nor the profile
/// names one.
pub const DEFAULT_REGION: &'static str = "us";

/// The default region, as an owned string.
pub fn default_region() -> (r: String)
    ensures
        r@ == DEFAULT_REGION@,
{
    DEFAULT_REGION.to_string()
}

/// One named credential. `allow_writes` belongs to the key itself: the write
/// guardrail reads it, never the profile's name.
#[derive(Debug)]
pub struct Profile {
    pub api_key: String,
    pub region: String,
    pub allow_writes: bool,
}

/// The abstract value of a profile.
pub struct ProfileV {
    pub api_key: Seq<char>,
    pub region: Seq<char>,
    pub allow_writes: bool,
}

impl View for Profile {
    type V = ProfileV;

    open spec fn view(&self) -> ProfileV {
        ProfileV { api_key: self.api_key@, region: self.region@, allow_writes: self.allow_writes }
    }
}

impl Profile {
    /// A copy of the profile, equal to it.
    pub fn copy(&self) -> (r: Profile)
        ensures
            r@ == self@,
    {
        Profile { api_key: self.api_key.clone(), region: self.region.clone(), allow_writes: self.allow_writes }
    }
}

/// Named profiles in name order.
pub type Entries = Seq<(Seq<char>, ProfileV)>;

/// Every name of `m` comes after `lo`.
pub open spec fn all_above(m: Entries, lo: Seq<char>) -> bool {
    forall|i: int| 0 <= i < m.len() ==> #[trigger] seq_lt(lo, m[i].0)
}

/// The names are strictly increasing: each comes once, in order.
pub open spec fn sorted(m: Entries) -> bool
    decreases m.len(),
{
    m.len() == 0 || (all_above(m.drop_first(), m[0].0) && sorted(m.drop_first()))
}

/// The profile named `k`.
pub open spec fn lookup(m: Entries, k: Seq<char>) -> Option<ProfileV>
    decreases m.len(),
{
    if m.len() == 0 {
        None
    } else if m[0].0 == k {
        Some(m[0].1)
    } else {
        lookup(m.drop_first(), k)
    }
}

/// `m` with the profile `k` set to `v`, in its place by name.
pub open spec fn put_profile(m: Entries, k: Seq<char>, v: ProfileV) -> Entries
    decreases m.len(),
{
    if m.len() == 0 {
        seq![(k, v)]
    } else if m[0].0 == k {
        seq![(k, v)] + m.drop_first()
    } else if seq_lt(k, m[0].0) {
        seq![(k, v)] + m
    } else {
        seq![m[0]] + put_profile(m.drop_first(), k, v)
    }
}

/// `m` without the profile `k`.
pub open spec fn drop_profile(m: Entries, k: Seq<char>) -> Entries
    decreases m.len(),
{
    if m.len() == 0 {
        m
    } else if m[0].0 == k {
        m.drop_first()
    } else {
        seq![m[0]] + drop_profile(m.drop_first(), k)
    }
}

/// The names, in order.
pub open spec fn names_of(m: Entries) -> Seq<Seq<char>> {
    m.map_values(|e: (Seq<char>, ProfileV)| e.0)
}

/// A bound below every name stays below after setting a name above it.
proof fn lemma_put_above(m: Entries, lo: Seq<char>, k: Seq<char>, v: ProfileV)
    requires
        all_above(m, lo),
        seq_lt(lo, k),
    ensures
        all_above(put_profile(m, k, v), lo),
    decreases m.len(),
{
    if m.len() > 0 && m[0].0 != k && !seq_lt(k, m[0].0) {
        lemma_put_above(m.drop_first(), lo, k, v);
        let r = put_profile(m, k, v);
        assert forall|i: int| 0 <= i < r.len() implies #[trigger] seq_lt(lo, r[i].0) by {
            if i > 0 {
                assert(r[i] == put_profile(m.drop_first(), k, v)[i - 1]);
            }
        }
    } else if m.len() > 0 && m[0].0 == k {
        let r = put_profile(m, k, v);
        assert forall|i: int| 0 <= i < r.len() implies #[trigger] seq_lt(lo, r[i].0) by {
            if i > 0 {
                assert(r[i] == m[i]);
            }
        }
    } else if m.len() > 0 {
        let r = put_profile(m, k, v);
        assert forall|i: int| 0 <= i < r.len() implies #[trigger] seq_lt(lo, r[i].0) by {
            if i > 0 {
                assert(r[i] == m[i - 1]);
            }
        }
    }
}

/// A lower bound of a bound is a bound.
proof fn lemma_above_lower(m: Entries, a: Seq<char>, b: Seq<char>)
    requires
        all_above(m, b),
        seq_lt(a, b),
    ensures
        all_above(m, a),
{
    assert forall|i: int| 0 <= i < m.len() implies #[trigger] seq_lt(a, m[i].0) by {
        lemma_seq_lt_trans(a, b, m[i].0);
    }
}

/// Setting a profile keeps the names in order.
pub proof fn lemma_put_sorted(m: Entries, k: Seq<char>, v: ProfileV)
    requires
        sorted(m),
    ensures
        sorted(put_profile(m, k, v)),
    decreases m.len(),
{
    let r = put_profile(m, k, v);
    if m.len() == 0 {
        assert(r =~= seq![(k, v)]);
        assert(r.drop_first().len() == 0);
        assert(sorted(r.drop_first()));
    } else if m[0].0 == k {
        assert(r =~= seq![(k, v)] + m.drop_first());
        assert(r[0] == (k, v));
        assert(r.drop_first() =~= m.drop_first());
    } else if seq_lt(k, m[0].0) {
        assert(r =~= seq![(k, v)] + m);
        assert(r[0] == (k, v));
        assert(r.drop_first() =~= m);
        lemma_above_lower(m.drop_first(), k, m[0].0);
        assert forall|i: int| 0 <= i < m.len() implies #[trigger] seq_lt(k, m[i].0) by {
            if i > 0 {
                assert(m[i] == m.drop_first()[i - 1]);
            }
        }
    } else {
        lemma_seq_lt_total(k, m[0].0);
        lemma_put_sorted(m.drop_first(), k, v);
        lemma_put_above(m.drop_first(), m[0].0, k, v);
        assert(r =~= seq![m[0]] + put_profile(m.drop_first(), k, v));
        assert(r[0] == m[0]);
        assert(r.drop_first() =~= put_profile(m.drop_first(), k, v));
    }
}

/// Dropping a profile keeps every bound.
proof fn lemma_drop_above(m: Entries, lo: Seq<char>, k: Seq<char>)
    requires
        all_above(m, lo),
    ensures
        all_above(drop_profile(m, k), lo),
    decreases m.len(),
{
    if m.len() > 0 {
        lemma_drop_above(m.drop_first(), lo, k);
        let r = drop_profile(m, k);
        if m[0].0 != k {
            assert forall|i: int| 0 <= i < r.len() implies #[trigger] seq_lt(lo, r[i].0) by {
                if i > 0 {
                    assert(r[i] == drop_profile(m.drop_first(), k)[i - 1]);
                }
            }
        } else {
            assert forall|i: int| 0 <= i < r.len() implies #[trigger] seq_lt(lo, r[i].0) by {
                assert(r[i] == m[i + 1]);
            }
        }
    }
}

/// Dropping a profile keeps the names in order.
pub proof fn lemma_drop_sorted(m: Entries, k: Seq<char>)
    requires
        sorted(m),
    ensures
        sorted(drop_profile(m, k)),
    decreases m.len(),
{
    if m.len() > 0 && m[0].0 != k {
        lemma_drop_sorted(m.drop_first(), k);
        lemma_drop_above(m.drop_first(), m[0].0, k);
        let r = drop_profile(m, k);
        assert(r.drop_first() =~= drop_profile(m.drop_first(), k));
    }
}

/// No name equals a bound below every name.
proof fn lemma_above_absent(m: Entries, lo: Seq<char>)
    requires
        all_above(m, lo),
    ensures
        lookup(m, lo) is None,
    decreases m.len(),
{
    if m.len() > 0 {
        assert(seq_lt(lo, m[0].0));
        lemma_seq_lt_asym(lo, lo);
        assert(all_above(m.drop_first(), lo)) by {
            assert forall|i: int| 0 <= i < m.drop_first().len() implies #[trigger] seq_lt(lo, m.drop_first()[i].0) by {
                assert(m.drop_first()[i] == m[i + 1]);
            }
        }
        lemma_above_absent(m.drop_first(), lo);
    }
}

/// Reading a profile after setting one.
pub proof fn lemma_lookup_put(m: Entries, k: Seq<char>, v: ProfileV, q: Seq<char>)
    ensures
        lookup(put_profile(m, k, v), q) == if q == k {
            Some(v)
        } else {
            lookup(m, q)
        },
    decreases m.len(),
{
    let r = put_profile(m, k, v);
    if m.len() == 0 {
        assert(r =~= seq![(k, v)]);
        assert(r[0] == (k, v));
        assert(r.drop_first().len() == 0);
    } else if m[0].0 == k {
        assert(r =~= seq![(k, v)] + m.drop_first());
        assert(r[0] == (k, v));
        assert(r.drop_first() =~= m.drop_first());
    } else if seq_lt(k, m[0].0) {
        assert(r =~= seq![(k, v)] + m);
        assert(r[0] == (k, v));
        assert(r.drop_first() =~= m);
    } else {
        assert(r =~= seq![m[0]] + put_profile(m.drop_first(), k, v));
        assert(r[0] == m[0]);
        assert(r.drop_first() =~= put_profile(m.drop_first(), k, v));
        lemma_lookup_put(m.drop_first(), k, v, q);
        assert(lookup(r, q) == if r[0].0 == q { Some(r[0].1) } else { lookup(r.drop_first(), q) });
        assert(lookup(m, q) == if m[0].0 == q { Some(m[0].1) } else { lookup(m.drop_first(), q) });
    }
}

/// Reading a profile after dropping one.
pub proof fn lemma_lookup_drop(m: Entries, k: Seq<char>, q: Seq<char>)
    requires
        sorted(m),
    ensures
        lookup(drop_profile(m, k), q) == if q == k {
            None
        } else {
            lookup(m, q)
        },
    decreases m.len(),
{
    if m.len() > 0 {
        if m[0].0 == k {
            if q == k {
                lemma_above_absent(m.drop_first(), k);
            }
        } else {
            let r = drop_profile(m, k);
            assert(r.drop_first() =~= drop_profile(m.drop_first(), k));
            lemma_lookup_drop(m.drop_first(), k, q);
        }
    }
}

/// Dropping a name that is not there changes nothing.
proof fn lemma_drop_absent(m: Entries, k: Seq<char>)
    requires
        lookup(m, k) is None,
    ensures
        drop_profile(m, k) == m,
    decreases m.len(),
{
    if m.len() > 0 {
        lemma_drop_absent(m.drop_first(), k);
        assert(seq![m[0]] + m.drop_first() =~= m);
    }
}

/// The on-disk credentials: profiles by name, in name order (as a sorted map
/// keeps them).
#[derive(Debug)]
pub struct Credentials {
    profiles: Vec<(String, Profile)>,
}

/// The abstract value of stored profiles.
pub open spec fn entries_of(v: Seq<(String, Profile)>) -> Entries {
    v.map_values(|e: (String, Profile)| (e.0@, e.1@))
}

impl View for Credentials {
    type V = Entries;

    closed spec fn view(&self) -> Entries {
        entries_of(self.profiles@)
    }
}

impl Credentials {
    /// Each name occurs once and the names are in order.
    #[verifier::type_invariant]
    closed spec fn inv(self) -> bool {
        sorted(entries_of(self.profiles@))
    }

    /// No profiles: a fresh install.
    pub fn new() -> (r: Credentials)
        ensures
            r@.len() == 0,
    {
        let r = Credentials { profiles: Vec::new() };
        assert(entries_of(r.profiles@) =~= Seq::<(Seq<char>, ProfileV)>::empty());
        r
    }

    /// The number of profiles.
    pub fn len(&self) -> (r: usize)
        ensures
            r == self@.len(),
    {
        self.profiles.len()
    }

    /// True when there are no profiles.
    pub fn is_empty(&self) -> (r: bool)
        ensures
            r == (self@.len() == 0),
    {
        self.profiles.len() == 0
    }

    /// The profile named `name`.
    pub fn get(&self, name: &str) -> (r: Option<&Profile>)
        ensures
            match lookup(self@, name@) {
                Some(p) => r matches Some(x) && x@ == p,
                None => r is None,
            },
    {
        let ghost m = self@;
        let mut i: usize = 0;
        assert(m.skip(0) =~= m);
        while i < self.profiles.len()
            invariant
                i <= self.profiles@.len(),
                m == entries_of(self.profiles@),
                lookup(m, name@) == lookup(m.skip(i as int), name@),
            decreases self.profiles.len() - i,
        {
            assert(m.skip(i as int)[0] == m[i as int]);
            assert(m.skip(i as int).drop_first() =~= m.skip(i + 1));
            if str_eq(self.profiles[i].0.as_str(), name) {
                return Some(&self.profiles[i].1);
            }
            i = i + 1;
        }
        None
    }

    /// The names of the profiles, in order.
    pub fn names(&self) -> (r: Vec<String>)
        ensures
            texts(r@) == names_of(self@),
            sorted(self@),
    {
        proof {
            use_type_invariant(self);
        }
        let mut out: Vec<String> = Vec::new();
        let mut i: usize = 0;
        while i < self.profiles.len()
            invariant
                i <= self.profiles@.len(),
                texts(out@) == names_of(entries_of(self.profiles@)).subrange(0, i as int),
            decreases self.profiles.len() - i,
        {
            let ghost before = out@;
            out.push(self.profiles[i].0.clone());
            assert(texts(out@) =~= texts(before).push(self.profiles@[i as int].0@));
            assert(names_of(entries_of(self.profiles@)).subrange(0, i + 1) =~= names_of(
                entries_of(self.profiles@),
            ).subrange(0, i as int).push(self.profiles@[i as int].0@));
            i = i + 1;
        }
        assert(names_of(entries_of(self.profiles@)).subrange(0, i as int) =~= names_of(entries_of(self.profiles@)));
        out
    }

    /// Sets the profile `name`, replacing one of that name.
    pub fn insert(&mut self, name: String, profile: Profile)
        ensures
            final(self)@ == put_profile(old(self)@, name@, profile@),
            sorted(final(self)@),
    {
        proof {
            use_type_invariant(&*self);
        }
        let mut v: Vec<(String, Profile)> = Vec::new();
        std::mem::swap(&mut v, &mut self.profiles);
        let ghost m = entries_of(v@);
        assert(m == old(self)@);
        assert(sorted(m));
        let kc = chars_of(name.as_str());
        let ghost kv = (name@, profile@);
        let mut i: usize = 0;
        assert(m.skip(0) =~= m);
        assert(m.take(0) =~= Seq::<(Seq<char>, ProfileV)>::empty());
        while i < v.len()
            invariant
                i <= v@.len(),
                m == entries_of(v@),
                m == old(self)@,
                sorted(m),
                kc@ == name@,
                kv == (name@, profile@),
                put_profile(m, name@, profile@) == m.take(i as int) + put_profile(m.skip(i as int), name@, profile@),
            decreases v.len() - i,
        {
            let ghost rest = m.skip(i as int);
            assert(rest[0] == m[i as int]);
            assert(rest.drop_first() =~= m.skip(i + 1));
            if str_eq(v[i].0.as_str(), name.as_str()) {
                v.set(i, (name, profile));
                assert(entries_of(v@) =~= m.take(i as int) + (seq![kv] + rest.drop_first()));
                proof {
                    lemma_put_sorted(m, kv.0, kv.1);
                }
                self.profiles = v;
                return;
            }
            let cur = chars_of(v[i].0.as_str());
            if chars_lt(kc.as_slice(), cur.as_slice()) {
                v.insert(i, (name, profile));
                assert(entries_of(v@) =~= m.take(i as int) + (seq![kv] + rest));
                proof {
                    lemma_put_sorted(m, kv.0, kv.1);
                }
                self.profiles = v;
                return;
            }
            assert(m.take(i + 1) =~= m.take(i as int).push(m[i as int]));
            assert(m.take(i as int) + put_profile(rest, name@, profile@) =~= m.take(i + 1) + put_profile(
                m.skip(i + 1),
                name@,
                profile@,
            ));
            i = i + 1;
        }
        v.push((name, profile));
        assert(m.take(i as int) =~= m);
        assert(entries_of(v@) =~= m + seq![kv]);
        proof {
            lemma_put_sorted(m, kv.0, kv.1);
        }
        self.profiles = v;
    }

    /// Removes the profile `name`; true when there was one.
    pub fn remove(&mut self, name: &str) -> (r: bool)
        ensures
            r == lookup(old(self)@, name@) is Some,
            final(self)@ == drop_profile(old(self)@, name@),
            sorted(final(self)@),
    {
        proof {
            use_type_invariant(&*self);
        }
        let mut v: Vec<(String, Profile)> = Vec::new();
        std::mem::swap(&mut v, &mut self.profiles);
        let ghost m = entries_of(v@);
        assert(m == old(self)@);
        let mut i: usize = 0;
        assert(m.skip(0) =~= m);
        assert(m.take(0) =~= Seq::<(Seq<char>, ProfileV)>::empty());
        while i < v.len()
            invariant
                i <= v@.len(),
                m == entries_of(v@),
                m == old(self)@,
                sorted(m),
                drop_profile(m, name@) == m.take(i as int) + drop_profile(m.skip(i as int), name@),
                lookup(m, name@) == lookup(m.skip(i as int), name@),
            decreases v.len() - i,
        {
            let ghost rest = m.skip(i as int);
            assert(rest[0] == m[i as int]);
            assert(rest.drop_first() =~= m.skip(i + 1));
            if str_eq(v[i].0.as_str(), name) {
                v.remove(i);
                assert(entries_of(v@) =~= m.take(i as int) + rest.drop_first());
                proof {
                    lemma_drop_sorted(m, name@);
                }
                self.profiles = v;
                return true;
            }
            assert(m.take(i + 1) =~= m.take(i as int).push(m[i as int]));
            assert(m.take(i as int) + drop_profile(rest, name@) =~= m.take(i + 1) + drop_profile(
                m.skip(i + 1),
                name@,
            ));
            i = i + 1;
        }
        proof {
            assert(m.take(i as int) =~= m);
            lemma_drop_absent(m, name@);
        }
        self.profiles = v;
        false
    }

    /// Chooses the credentials from what a file parsed as: the profiles shape
    /// when it holds any profile; else the legacy single-key shape, migrated
    /// into the `default` profile (`true` says so, and the file should be
    /// rewritten); else no profile at all. Empty or unknown content is a
    /// fresh install, not an error.
    pub fn from_parsed(profiles: Option<Credentials>, legacy: Option<Profile>) -> (r: (Credentials, bool))
        ensures
            match profiles {
                Some(c) => if c@.len() > 0 {
                    r.0@ == c@ && !r.1
                } else {
                    match legacy {
                        Some(p) => r.0@ == seq![(DEFAULT_PROFILE@, p@)] && r.1,
                        None => r.0@.len() == 0 && !r.1,
                    }
                },
                None => match legacy {
                    Some(p) => r.0@ == seq![(DEFAULT_PROFILE@, p@)] && r.1,
                    None => r.0@.len() == 0 && !r.1,
                },
            },
    {
        match profiles {
            Some(c) => {
                if !c.is_empty() {
                    return (c, false);
                }
                match legacy {
                    Some(p) => (Credentials::migrated(p), true),
                    None => (c, false),
                }
            },
            None => match legacy {
                Some(p) => (Credentials::migrated(p), true),
                None => (Credentials::new(), false),
            },
        }
    }

    /// A single `default` profile.
    fn migrated(p: Profile) -> (r: Credentials)
        ensures
            r@ == seq![(DEFAULT_PROFILE@, p@)],
    {
        let mut c = Credentials::new();
        c.insert(DEFAULT_PROFILE.to_string(), p);
        c
    }

    /// The profiles in name order, for writing the file back.
    pub fn entries(&self) -> (r: &[(String, Profile)])
        ensures
            entries_of(r@) == self@,
    {
        self.profiles.as_slice()
    }
}

/// Sets or replaces a profile (what `drata login` stores).
pub fn save_profile(creds: &mut Credentials, name: &str, profile: Profile)
    ensures
        final(creds)@ == put_profile(old(creds)@, name@, profile@),
{
    creds.insert(name.to_string(), profile);
}

/// Removes a profile (what `drata logout` does); true when it existed.
pub fn remove_profile(creds: &mut Credentials, name: &str) -> (r: bool)
    ensures
        r == lookup(old(creds)@, name@) is Some,
        final(creds)@ == drop_profile(old(creds)@, name@),
{
    creds.remove(name)
}

/// The message when no API key can be resolved for `profile`.
pub open spec fn no_key_text(profile: Seq<char>) -> Seq<char> {
    "No Drata API key found for profile "@ + debug_text(profile)
        + ".\n\nTo configure a key:\n     drata login --profile "@ + profile
        + " --api-key <your-key> --region us\n\nor set an env var:\n     export DRATA_API_KEY=<your-key>\n\nRun `drata auth` to verify detection."@
}

/// The error shown when no API key can be resolved for `profile`.
pub fn no_key_error_message(profile: &str) -> (r: String)
    ensures
        r@ == no_key_text(profile@),
{
    let mut m = String::new();
    push_str(&mut m, "No Drata API key found for profile ");
    push_str(&mut m, crate::client::debug_quote(profile).as_str());
    push_str(&mut m, ".\n\nTo configure a key:\n     drata login --profile ");
    push_str(&mut m, profile);
    push_str(
        &mut m,
        " --api-key <your-key> --region us\n\nor set an env var:\n     export DRATA_API_KEY=<your-key>\n\nRun `drata auth` to verify detection.",
    );
    m
}

/// `base` joined with a relative component, as a path buffer pushes it: a
/// `/` goes between them unless `base` is empty or already ends with one.
pub open spec fn join_path(base: Seq<char>, comp: Seq<char>) -> Seq<char> {
    if base.len() == 0 || base.last() == '/' {
        base + comp
    } else {
        base + seq!['/'] + comp
    }
}

/// Joins a relative component onto a path.
pub fn push_path(base: &str, comp: &str) -> (r: String)
    ensures
        r@ == join_path(base@, comp@),
{
    let cs = chars_of(base);
    let mut r = String::new();
    push_str(&mut r, base);
    if cs.len() > 0 && cs[cs.len() - 1] != '/' {
        crate::text::push_char(&mut r, '/');
    }
    push_str(&mut r, comp);
    r
}

/// An XDG base directory: the environment value when it is an absolute
/// path, else `home` joined with `fallback`.
pub open spec fn xdg_dir_of(env_value: Option<Seq<char>>, home: Option<Seq<char>>, fallback: Seq<char>) -> Option<Seq<char>> {
    match env_value {
        Some(d) if d.len() > 0 && d[0] == '/' => Some(d),
        _ => match home {
            Some(h) => Some(join_path(h, fallback)),
            None => None,
        },
    }
}

/// The character views of an optional string.
pub open spec fn opt_view(s: Option<String>) -> Option<Seq<char>> {
    match s {
        Some(v) => Some(v@),
        None => None,
    }
}

/// Resolves an XDG base directory from its environment variable's value
/// and the home directory.
fn xdg_dir(env_value: &Option<String>, home: &Option<String>, fallback: &str) -> (r: Option<String>)
    ensures
        opt_view(r) == xdg_dir_of(opt_view(*env_value), opt_view(*home), fallback@),
{
    match env_value {
        Some(d) => {
            let cs = chars_of(d.as_str());
            if cs.len() > 0 && cs[0] == '/' {
                return Some(d.clone());
            }
        },
        None => {},
    }
    match home {
        Some(h) => Some(push_path(h.as_str(), fallback)),
        None => None,
    }
}

/// The XDG config directory: `$XDG_CONFIG_HOME` when absolute, else
/// `$HOME/.config`, the same on every platform.
pub fn xdg_config_dir(env_value: &Option<String>, home: &Option<String>) -> (r: Option<String>)
    ensures
        opt_view(r) == xdg_dir_of(opt_view(*env_value), opt_view(*home), ".config"@),
{
    xdg_dir(env_value, home, ".config")
}

/// The XDG data directory: `$XDG_DATA_HOME` when absolute, else
/// `$HOME/.local/share`.
pub fn xdg_data_dir(env_value: &Option<String>, home: &Option<String>) -> (r: Option<String>)
    ensures
        opt_view(r) == xdg_dir_of(opt_view(*env_value), opt_view(*home), ".local/share"@),
{
    xdg_dir(env_value, home, ".local/share")
}

/// The credentials file inside a config directory.
pub open spec fn credentials_path_of(config_dir: Seq<char>) -> Seq<char> {
    join_path(join_path(config_dir, "drata"@), "credentials.json"@)
}

/// The path of the credentials file: `<config dir>/drata/credentials.json`.
pub fn credentials_path(config_dir: &Option<String>) -> (r: Option<String>)
    ensures
        match *config_dir {
            Some(d) => r matches Some(p) && p@ == credentials_path_of(d@),
            None => r is None,
        },
{
    match config_dir {
        Some(d) => {
            let a = push_path(d.as_str(), "drata");
            Some(push_path(a.as_str(), "credentials.json"))
        },
        None => None,
    }
}

/// Where the API key was resolved from. Reported without the key.
#[derive(Debug)]
pub enum TokenSource {
    CliFlag,
    EnvVar,
    Profile(String),
    NotFound,
}

/// The abstract value of a token source: a profile source by its name.
pub enum SourceV {
    CliFlag,
    EnvVar,
    Profile(Seq<char>),
    NotFound,
}

impl View for TokenSource {
    type V = SourceV;

    open spec fn view(&self) -> SourceV {
        match self {
            TokenSource::CliFlag => SourceV::CliFlag,
            TokenSource::EnvVar => SourceV::EnvVar,
            TokenSource::Profile(n) => SourceV::Profile(n@),
            TokenSource::NotFound => SourceV::NotFound,
        }
    }
}

/// What the command line and the environment hold, as the binary read them.
#[derive(Debug)]
pub struct Inputs {
    /// `--profile`.
    pub cli_profile: Option<String>,
    /// `DRATA_PROFILE`.
    pub env_profile: Option<String>,
    /// `--api-key`.
    pub cli_api_key: Option<String>,
    /// `DRATA_API_KEY`.
    pub env_api_key: Option<String>,
    /// `--region`.
    pub cli_region: Option<String>,
    /// `DRATA_REGION`.
    pub env_region: Option<String>,
    /// `--allow-writes`.
    pub cli_allow_writes: bool,
    /// `--output`.
    pub cli_output: Option<OutputFormat>,
    /// `--log-level`.
    pub cli_log_level: Option<LogLevel>,
}

/// The first present value of two, else a default.
pub open spec fn first_or(a: Option<String>, b: Option<String>, d: Seq<char>) -> Seq<char> {
    match a {
        Some(x) => x@,
        None => match b {
            Some(y) => y@,
            None => d,
        },
    }
}

/// The selected profile's name: CLI flag, else environment, else `default`.
pub open spec fn profile_name_of(i: Inputs) -> Seq<char> {
    first_or(i.cli_profile, i.env_profile, DEFAULT_PROFILE@)
}

/// The profile name the user selected (CLI > env > `default`).
pub fn selected_profile(inputs: &Inputs) -> (r: String)
    ensures
        r@ == profile_name_of(*inputs),
{
    match &inputs.cli_profile {
        Some(p) => p.clone(),
        None => match &inputs.env_profile {
            Some(p) => p.clone(),
            None => DEFAULT_PROFILE.to_string(),
        },
    }
}

/// The region: CLI flag, else environment, else the profile's.
pub open spec fn region_of(i: Inputs, selected: Option<ProfileV>) -> Option<Seq<char>> {
    match i.cli_region {
        Some(r) => Some(r@),
        None => match i.env_region {
            Some(r) => Some(r@),
            None => match selected {
                Some(p) => Some(p.region),
                None => None,
            },
        },
    }
}

/// Resolves the region from flags, environment and the selected profile.
fn resolve_region(inputs: &Inputs, selected: Option<&Profile>) -> (r: Option<String>)
    ensures
        opt_view(r) == region_of(
            *inputs,
            match selected {
                Some(p) => Some(p@),
                None => None,
            },
        ),
{
    match &inputs.cli_region {
        Some(r) => Some(r.clone()),
        None => match &inputs.env_region {
            Some(r) => Some(r.clone()),
            None => match selected {
                Some(p) => Some(p.region.clone()),
                None => None,
            },
        },
    }
}

/// The fully resolved runtime configuration.
#[derive(Debug)]
pub struct Config {
    pub api_key: String,
    pub region: String,
    pub allow_writes: bool,
    pub profile: String,
    pub output_format: OutputFormat,
    pub log_level: String,
    pub token_source: TokenSource,
}

/// No API key for the selected profile.
#[derive(Debug)]
pub struct NoKeyError {
    pub profile: String,
}

impl NoKeyError {
    /// The message shown to the user.
    pub fn message(&self) -> (r: String)
        ensures
            r@ == no_key_text(self.profile@),
    {
        no_key_error_message(self.profile.as_str())
    }
}

/// The key and its source: CLI flag, else environment, else the selected
/// profile; `None` when there is none.
pub open spec fn key_of(i: Inputs, name: Seq<char>, selected: Option<ProfileV>) -> Option<(Seq<char>, SourceV)> {
    match i.cli_api_key {
        Some(k) => Some((k@, SourceV::CliFlag)),
        None => match i.env_api_key {
            Some(k) => Some((k@, SourceV::EnvVar)),
            None => match selected {
                Some(p) => Some((p.api_key, SourceV::Profile(name))),
                None => None,
            },
        },
    }
}

/// The log level name: the flag's, else `warn`.
pub open spec fn log_level_of(l: Option<LogLevel>) -> Seq<char> {
    match l {
        Some(x) => log_level_name(x),
        None => "warn"@,
    }
}

impl Config {
    /// Resolves the configuration with the precedence CLI flag >
    /// environment > profile. Fails closed: no key is an error. Writes are
    /// allowed by `--allow-writes`, or by a write-enabled profile when the key
    /// came from that profile; a key from a flag or the environment alone is
    /// read-only.
    pub fn resolve(inputs: &Inputs, creds: &Credentials) -> (r: Result<Config, NoKeyError>)
        ensures
            ({
                let name = profile_name_of(*inputs);
                let sel = lookup(creds@, name);
                match key_of(*inputs, name, sel) {
                    None => r matches Err(e) && e.profile@ == name,
                    Some((key, source)) => r matches Ok(c) && {
                        &&& c.api_key@ == key
                        &&& c.token_source@ == source
                        &&& c.profile@ == name
                        &&& Some(c.region@) == (match region_of(*inputs, sel) {
                            Some(x) => Some(x),
                            None => Some(DEFAULT_REGION@),
                        })
                        &&& c.allow_writes == (inputs.cli_allow_writes || (source is Profile && sel.unwrap().allow_writes))
                        &&& c.output_format == (match inputs.cli_output {
                            Some(o) => o,
                            None => OutputFormat::Auto,
                        })
                        &&& c.log_level@ == log_level_of(inputs.cli_log_level)
                    },
                }
            }),
    {
        let name = selected_profile(inputs);
        let selected = creds.get(name.as_str());
        let (api_key, token_source) = match &inputs.cli_api_key {
            Some(k) => (k.clone(), TokenSource::CliFlag),
            None => match &inputs.env_api_key {
                Some(k) => (k.clone(), TokenSource::EnvVar),
                None => match selected {
                    Some(p) => (p.api_key.clone(), TokenSource::Profile(name.clone())),
                    None => {
                        return Err(NoKeyError { profile: name });
                    },
                },
            },
        };
        let region = match resolve_region(inputs, selected) {
            Some(r) => r,
            None => default_region(),
        };
        let from_profile = match &token_source {
            TokenSource::Profile(_) => true,
            _ => false,
        };
        let allow_writes = inputs.cli_allow_writes || (from_profile && match selected {
            Some(p) => p.allow_writes,
            None => false,
        });
        let output_format = match inputs.cli_output {
            Some(o) => o,
            None => OutputFormat::Auto,
        };
        let log_level = match inputs.cli_log_level {
            Some(l) => l.as_str().to_string(),
            None => "warn".to_string(),
        };
        Ok(Config { api_key, region, allow_writes, profile: name, output_format, log_level, token_source })
    }
}

/// The token-free view behind `drata auth` and `drata whoami`; it needs no
/// key, so it works on a fresh install.
#[derive(Debug)]
pub struct AuthDiagnostic {
    pub profile: String,
    pub region: Option<String>,
    pub allow_writes: bool,
    pub token_source: TokenSource,
    pub credentials_path: Option<String>,
    pub known_profiles: Vec<String>,
}

/// Where a key would come from: CLI flag, else environment, else the
/// selected profile, else nowhere.
pub open spec fn diagnostic_source(i: Inputs, name: Seq<char>, selected: Option<ProfileV>) -> SourceV {
    if i.cli_api_key is Some {
        SourceV::CliFlag
    } else if i.env_api_key is Some {
        SourceV::EnvVar
    } else if selected is Some {
        SourceV::Profile(name)
    } else {
        SourceV::NotFound
    }
}

impl AuthDiagnostic {
    /// Resolves the diagnostic view. `credentials_path` is the credentials
    /// file when it exists. Writes show as enabled by `--allow-writes` or by
    /// a write-enabled selected profile.
    pub fn resolve(inputs: &Inputs, creds: &Credentials, credentials_path: Option<String>) -> (r: AuthDiagnostic)
        ensures
            ({
                let name = profile_name_of(*inputs);
                let sel = lookup(creds@, name);
                &&& r.profile@ == name
                &&& opt_view(r.region) == region_of(*inputs, sel)
                &&& r.allow_writes == (inputs.cli_allow_writes || (sel is Some && sel.unwrap().allow_writes))
                &&& r.token_source@ == diagnostic_source(*inputs, name, sel)
                &&& opt_view(r.credentials_path) == opt_view(credentials_path)
                &&& texts(r.known_profiles@) == names_of(creds@)
            }),
    {
        let name = selected_profile(inputs);
        let selected = creds.get(name.as_str());
        let token_source = if inputs.cli_api_key.is_some() {
            TokenSource::CliFlag
        } else if inputs.env_api_key.is_some() {
            TokenSource::EnvVar
        } else if selected.is_some() {
            TokenSource::Profile(name.clone())
        } else {
            TokenSource::NotFound
        };
        let region = resolve_region(inputs, selected);
        let allow_writes = inputs.cli_allow_writes || match selected {
            Some(p) => p.allow_writes,
            None => false,
        };
        AuthDiagnostic {
            profile: name,
            region,
            allow_writes,
            token_source,
            credentials_path,
            known_profiles: creds.names(),
        }
    }
}

/// Precedence of the configuration: the profile is `--profile`, else
/// `DRATA_PROFILE`, else `default`; the key is `--api-key`, else
/// `DRATA_API_KEY`, else the selected profile's key, else there is none
/// (an error); the region is `--region`, else `DRATA_REGION`, else the
/// profile's region. A key from a flag or the environment is never
/// attributed to a profile.
pub proof fn lemma_config_precedence(i: Inputs, creds: Entries)
    ensures
        i.cli_profile matches Some(p) ==> profile_name_of(i) == p@,
        i.cli_profile is None ==> (i.env_profile matches Some(p) ==> profile_name_of(i) == p@),
        i.cli_profile is None && i.env_profile is None ==> profile_name_of(i) == DEFAULT_PROFILE@,
        ({
            let name = profile_name_of(i);
            let sel = lookup(creds, name);
            &&& i.cli_api_key matches Some(k) ==> key_of(i, name, sel) == Some((k@, SourceV::CliFlag))
            &&& i.cli_api_key is None ==> (i.env_api_key matches Some(k) ==> key_of(i, name, sel) == Some(
                (k@, SourceV::EnvVar),
            ))
            &&& i.cli_api_key is None && i.env_api_key is None ==> (sel matches Some(p) ==> key_of(i, name, sel)
                == Some((p.api_key, SourceV::Profile(name))))
            &&& i.cli_api_key is None && i.env_api_key is None && sel is None ==> key_of(i, name, sel) is None
            &&& i.cli_region matches Some(r) ==> region_of(i, sel) == Some(r@)
            &&& i.cli_region is None ==> (i.env_region matches Some(r) ==> region_of(i, sel) == Some(r@))
            &&& i.cli_region is None && i.env_region is None ==> (sel matches Some(p) ==> region_of(i, sel) == Some(
                p.region,
            ))
            &&& (i.cli_api_key is Some || i.env_api_key is Some) ==> (key_of(i, name, sel) matches Some((_, src))
                && !(src is Profile))
        }),
{
}

} // verus!
