//! Reading the co-author configuration that git-mit keeps in the version
//! control system's config, under `mit.author.coauthors.<index>.<key>`.

use vstd::prelude::*;

use crate::text::{int_text, push_i32_text};

verus! {

/// A failure to read a value from a version control system's config.
#[derive(Debug, PartialEq, Eq)]
pub struct VcsError {
    pub message: String,
}

/// What a config read gives back, with the strings taken as their texts.
pub open spec fn read_view(r: Result<Option<String>, VcsError>) -> Result<Option<Seq<char>>, VcsError> {
    match r {
        Ok(Some(v)) => Ok(Some(v@)),
        Ok(None) => Ok(None),
        Err(e) => Err(e),
    }
}

/// The text of an optional string.
pub open spec fn opt_view(o: Option<String>) -> Option<Seq<char>> {
    match o {
        Some(v) => Some(v@),
        None => None,
    }
}

/// A version control system's config, as git-mit reads it.
pub trait Vcs {
    /// What reading the string value of the key `name` gives back.
    spec fn spec_get_str(&self, name: Seq<char>) -> Result<Option<Seq<char>>, VcsError>;

    /// Reads the string value of the key `name`: `Ok(None)` when it is not set.
    fn get_str(&self, name: &str) -> (r: Result<Option<String>, VcsError>)
        ensures
            read_view(r) == self.spec_get_str(name@),
    ;
}

/// A stored value as text, or the error that reading it gives.
pub open spec fn value_view(v: Result<String, VcsError>) -> Result<Seq<char>, VcsError> {
    match v {
        Ok(s) => Ok(s@),
        Err(e) => Err(e),
    }
}

impl Clone for VcsError {
    fn clone(&self) -> (r: VcsError)
        ensures
            r == *self,
    {
        VcsError { message: self.message.clone() }
    }
}

/// A config held in memory, such as a snapshot of a repository's config: a
/// map from keys to values, where a value that cannot be read as a string is
/// held as the error that reading it gives.
pub struct InMemory {
    entries: Vec<(String, Result<String, VcsError>)>,
}

impl InMemory {
    /// No key occurs twice.
    #[verifier::type_invariant]
    spec fn keys_distinct(&self) -> bool {
        forall|i: int, j: int|
            0 <= i < j < self.entries@.len() ==> #[trigger] self.entries@[i].0@
                != #[trigger] self.entries@[j].0@
    }

    /// The keys that are set and their values.
    pub closed spec fn view(&self) -> Map<Seq<char>, Result<Seq<char>, VcsError>> {
        Map::new(
            |k: Seq<char>| exists|i: int| 0 <= i < self.entries@.len() && #[trigger] self.entries@[i].0@ == k,
            |k: Seq<char>|
                value_view(
                    self.entries@[choose|i: int|
                        0 <= i < self.entries@.len() && #[trigger] self.entries@[i].0@ == k].1,
                ),
        )
    }

    /// An empty config.
    pub fn new() -> (r: InMemory)
        ensures
            r.view() == Map::<Seq<char>, Result<Seq<char>, VcsError>>::empty(),
    {
        let r = InMemory { entries: Vec::new() };
        assert(r.view() =~= Map::<Seq<char>, Result<Seq<char>, VcsError>>::empty());
        r
    }

    /// The position of the entry whose key is `name`, if any.
    fn find(&self, name: &String) -> (r: Option<usize>)
        ensures
            match r {
                Some(i) => i < self.entries@.len() && self.entries@[i as int].0@ == name@,
                None => forall|i: int| 0 <= i < self.entries@.len() ==> #[trigger] self.entries@[i].0@ != name@,
            },
    {
        let mut i: usize = 0;
        while i < self.entries.len()
            invariant
                i <= self.entries@.len(),
                forall|j: int| 0 <= j < i ==> #[trigger] self.entries@[j].0@ != name@,
            decreases self.entries@.len() - i,
        {
            if self.entries[i].0 == *name {
                return Some(i);
            }
            i = i + 1;
        }
        None
    }

    /// Sets the key `name` to the stored value `value`, replacing any it had.
    fn set_entry(&mut self, name: &str, value: Result<String, VcsError>)
        ensures
            final(self).view() == old(self).view().insert(name@, value_view(value)),
    {
        proof {
            use_type_invariant(&*self);
        }
        let key = name.to_owned();
        let found = self.find(&key);
        let ghost before = self.view();
        let ghost stored = value_view(value);
        let mut entries: Vec<(String, Result<String, VcsError>)> = Vec::new();
        std::mem::swap(&mut entries, &mut self.entries);
        let ghost old_entries = entries@;
        match found {
            Some(i) => {
                entries.set(i, (key, value));
            },
            None => {
                entries.push((key, value));
            },
        }
        let ghost new_entries = entries@;
        proof {
            assert forall|a: int, b: int|
                0 <= a < b < new_entries.len() implies #[trigger] new_entries[a].0@
                    != #[trigger] new_entries[b].0@ by {
                assert(old_entries[a].0@ != old_entries[b].0@ || (a >= old_entries.len() || b
                    >= old_entries.len()));
            }
        }
        self.entries = entries;
        proof {
            let after = self.view();
            let expected = before.insert(name@, stored);
            assert forall|k: Seq<char>| #[trigger] after.contains_key(k) == expected.contains_key(k) by {
                if k == name@ {
                    match found {
                        Some(i) => {
                            assert(self.entries@[i as int].0@ == k);
                        },
                        None => {
                            assert(self.entries@[old_entries.len() as int].0@ == k);
                        },
                    }
                } else if before.contains_key(k) {
                    let j = choose|j: int| 0 <= j < old_entries.len() && #[trigger] old_entries[j].0@ == k;
                    assert(self.entries@[j].0@ == k);
                } else if after.contains_key(k) {
                    let j = choose|j: int|
                        0 <= j < self.entries@.len() && #[trigger] self.entries@[j].0@ == k;
                    assert(old_entries[j].0@ == k);
                }
            }
            assert forall|k: Seq<char>| #[trigger] after.contains_key(k) implies after[k] == expected[k] by {
                let j = choose|j: int| 0 <= j < self.entries@.len() && #[trigger] self.entries@[j].0@ == k;
                if k == name@ {
                    match found {
                        Some(i) => {
                            assert(self.entries@[i as int].0@ == k);
                            assert(j == i);
                        },
                        None => {
                            assert(self.entries@[old_entries.len() as int].0@ == k);
                            assert(j == old_entries.len());
                        },
                    }
                } else {
                    assert(old_entries[j].0@ == k);
                    let j0 = choose|j0: int| 0 <= j0 < old_entries.len() && #[trigger] old_entries[j0].0@ == k;
                    assert(j0 == j);
                }
            }
            assert(after =~= expected);
        }
    }

    /// Sets the key `name` to `value`, replacing any value it had.
    pub fn set_str(&mut self, name: &str, value: &str)
        ensures
            final(self).view() == old(self).view().insert(name@, Ok::<Seq<char>, VcsError>(value@)),
    {
        self.set_entry(name, Ok(value.to_owned()));
    }

    /// Records that the value of the key `name` cannot be read as a string,
    /// and the error that reading it gives.
    pub fn set_unreadable(&mut self, name: &str, error: VcsError)
        ensures
            final(self).view() == old(self).view().insert(name@, Err::<Seq<char>, VcsError>(error)),
    {
        self.set_entry(name, Err(error));
    }
}

impl Vcs for InMemory {
    open spec fn spec_get_str(&self, name: Seq<char>) -> Result<Option<Seq<char>>, VcsError> {
        if self.view().contains_key(name) {
            match self.view()[name] {
                Ok(v) => Ok(Some(v)),
                Err(e) => Err(e),
            }
        } else {
            Ok(None)
        }
    }

    fn get_str(&self, name: &str) -> (r: Result<Option<String>, VcsError>) {
        proof {
            use_type_invariant(self);
        }
        let key = name.to_owned();
        match self.find(&key) {
            Some(i) => {
                proof {
                    let j = choose|j: int| 0 <= j < self.entries@.len() && #[trigger] self.entries@[j].0@ == name@;
                    assert(j == i);
                }
                match &self.entries[i].1 {
                    Ok(value) => Ok(Some(value.clone())),
                    Err(e) => Err(e.clone()),
                }
            },
            None => Ok(None),
        }
    }
}

/// The config key of the co-author setting `key` at position `index`:
/// `mit.author.coauthors.<index>.<key>`.
pub open spec fn coauthor_key(index: int, key: Seq<char>) -> Seq<char> {
    "mit.author.coauthors."@ + int_text(index) + "."@ + key
}

/// Whether co-author `index` is configured: both its name and its email read
/// back as set values.
pub open spec fn spec_has_coauthor<V: Vcs>(config: &V, index: int) -> bool {
    &&& config.spec_get_str(coauthor_key(index, "name"@)) matches Ok(Some(_))
    &&& config.spec_get_str(coauthor_key(index, "email"@)) matches Ok(Some(_))
}

/// `n` is the number of co-authors configured one after another from index 0:
/// those before `n` are configured and `n` itself is not.
pub open spec fn leading_coauthors<V: Vcs>(config: &V, n: int) -> bool {
    &&& 0 <= n
    &&& forall|j: int| 0 <= j < n ==> spec_has_coauthor(config, j)
    &&& !spec_has_coauthor(config, n)
}

/// The values of `key` for the co-authors `0..n`; or, where a read failed,
/// the first failed read's error together with the number of times the
/// reading context is put around it: once where it failed, and once more for
/// each co-author read after it.
pub open spec fn spec_coauthors_config<V: Vcs>(config: &V, key: Seq<char>, n: nat) -> Result<
    Seq<Option<Seq<char>>>,
    (VcsError, nat),
>
    decreases n,
{
    if n == 0 {
        Ok(Seq::empty())
    } else {
        match spec_coauthors_config(config, key, (n - 1) as nat) {
            Err((e, layers)) => Err((e, layers + 1)),
            Ok(values) => match config.spec_get_str(coauthor_key(n - 1, key)) {
                Err(e) => Err((e, 1)),
                Ok(v) => Ok(values.push(v)),
            },
        }
    }
}

/// A failed read of the co-authors' settings: the read's own error, with the
/// context `failed to read ` put around it `layers` times.
#[derive(Debug, PartialEq, Eq)]
pub struct CoauthorsReadError {
    pub context: String,
    pub layers: usize,
    pub source: VcsError,
}

/// The texts of a list of optional strings.
pub open spec fn opt_texts(list: Seq<Option<String>>) -> Seq<Option<Seq<char>>> {
    list.map_values(|o: Option<String>| opt_view(o))
}

/// The config key `mit.author.coauthors.<index>.<key>`.
pub fn coauthor_config_key(index: i32, key: &str) -> (r: String)
    ensures
        r@ == coauthor_key(index as int, key@),
{
    let mut r = String::new();
    r.append("mit.author.coauthors.");
    push_i32_text(&mut r, index);
    r.append(".");
    r.append(key);
    assert(r@ =~= coauthor_key(index as int, key@));
    r
}

/// Reads the co-author setting `key` at position `index`.
pub fn get_vcs_coauthor_config<V: Vcs>(config: &V, key: &str, index: i32) -> (r: Result<
    Option<String>,
    VcsError,
>)
    ensures
        read_view(r) == config.spec_get_str(coauthor_key(index as int, key@)),
{
    let name = coauthor_config_key(index, key);
    config.get_str(name.as_str())
}

/// Whether co-author `index` has both a name and an email configured.
pub fn has_vcs_coauthor<V: Vcs>(config: &V, index: i32) -> (r: bool)
    ensures
        r == spec_has_coauthor(config, index as int),
{
    let email = get_vcs_coauthor_config(config, "email", index);
    let name = get_vcs_coauthor_config(config, "name", index);
    match (name, email) {
        (Ok(Some(_)), Ok(Some(_))) => true,
        _ => false,
    }
}

/// Reads the setting `key` of every co-author configured one after another
/// from index 0, stopping at the first index without a name and an email.
/// Where a read fails, gives back its error in the context `failed to read `,
/// put around it again for every co-author read after it.
pub fn get_vcs_coauthors_config<V: Vcs>(config: &V, key: &str) -> (r: Result<
    Vec<Option<String>>,
    CoauthorsReadError,
>)
    requires
        exists|k: int| 0 <= k < i32::MAX && !spec_has_coauthor(config, k),
    ensures
        forall|n: int|
            leading_coauthors(config, n) ==> match r {
                Ok(values) => spec_coauthors_config(config, key@, n as nat) == Ok::<
                    Seq<Option<Seq<char>>>,
                    (VcsError, nat),
                >(opt_texts(values@)),
                Err(e) => e.context@ == "failed to read "@ && spec_coauthors_config(
                    config,
                    key@,
                    n as nat,
                ) == Err::<Seq<Option<Seq<char>>>, (VcsError, nat)>((e.source, e.layers as nat)),
            },
        forall|n: int|
            leading_coauthors(config, n) && (forall|j: int|
                0 <= j < n ==> #[trigger] config.spec_get_str(coauthor_key(j, key@)) is Ok) ==> (
            r matches Ok(values) && values@.len() == n && (forall|j: int|
                0 <= j < n ==> opt_view(#[trigger] values@[j]) == config.spec_get_str(
                    coauthor_key(j, key@),
                )->Ok_0)),
{
    let ghost k = choose|k: int| 0 <= k < i32::MAX && !spec_has_coauthor(config, k);
    let mut values: Vec<Option<String>> = Vec::new();
    let mut failed: Option<(VcsError, usize)> = None;
    let mut index: i32 = 0;
    assert(opt_texts(values@) =~= Seq::<Option<Seq<char>>>::empty());
    while has_vcs_coauthor(config, index)
        invariant
            0 <= index <= k < i32::MAX,
            !spec_has_coauthor(config, k),
            forall|j: int| 0 <= j < index ==> spec_has_coauthor(config, j),
            match failed {
                Some((e, layers)) => layers <= index && spec_coauthors_config(
                    config,
                    key@,
                    index as nat,
                ) == Err::<Seq<Option<Seq<char>>>, (VcsError, nat)>((e, layers as nat)),
                None => spec_coauthors_config(config, key@, index as nat) == Ok::<
                    Seq<Option<Seq<char>>>,
                    (VcsError, nat),
                >(opt_texts(values@)),
            },
        decreases k - index,
    {
        let item = get_vcs_coauthor_config(config, key, index);
        match failed {
            Some((e, layers)) => {
                failed = Some((e, layers + 1));
            },
            None => match item {
                Ok(v) => {
                    let ghost before = values@;
                    values.push(v);
                    assert(opt_texts(values@) =~= opt_texts(before).push(opt_view(v)));
                },
                Err(e) => {
                    failed = Some((e, 1));
                },
            },
        }
        index = index + 1;
    }
    proof {
        assert forall|n: int| leading_coauthors(config, n) implies n == index by {
            if n < index {
                assert(spec_has_coauthor(config, n));
            } else if n > index {
                assert(spec_has_coauthor(config, index as int));
            }
        }
        if forall|j: int| 0 <= j < index ==> #[trigger] config.spec_get_str(coauthor_key(j, key@)) is Ok {
            law_coauthors_config_reads(config, key@, index as nat);
            if failed is None {
                assert forall|j: int| 0 <= j < index implies opt_view(#[trigger] values@[j])
                    == config.spec_get_str(coauthor_key(j, key@))->Ok_0 by {
                    assert(opt_texts(values@)[j] == opt_view(values@[j]));
                }
            }
        }
    }
    match failed {
        Some((e, layers)) => Err(
            CoauthorsReadError { context: "failed to read ".to_owned(), layers, source: e },
        ),
        None => Ok(values),
    }
}

/// Reading back a key just written gives the value written (or the error
/// recorded for it), and every other key reads as it did before.
pub proof fn law_in_memory_read_after_write(
    before: InMemory,
    after: InMemory,
    name: Seq<char>,
    stored: Result<Seq<char>, VcsError>,
    other: Seq<char>,
)
    requires
        after.view() == before.view().insert(name, stored),
    ensures
        after.spec_get_str(name) == match stored {
            Ok(v) => Ok::<Option<Seq<char>>, VcsError>(Some(v)),
            Err(e) => Err(e),
        },
        other != name ==> after.spec_get_str(other) == before.spec_get_str(other),
{
}

/// When every read of `key` for the co-authors `0..n` succeeds, the values
/// read are given back with one entry per co-author, in order: entry `j` is
/// what reading `mit.author.coauthors.<j>.<key>` gave, set or not.
pub proof fn law_coauthors_config_reads<V: Vcs>(config: &V, key: Seq<char>, n: nat)
    requires
        forall|j: int| 0 <= j < n ==> #[trigger] config.spec_get_str(coauthor_key(j, key)) is Ok,
    ensures
        spec_coauthors_config(config, key, n) matches Ok(values) && values.len() == n && (forall|j: int|
            0 <= j < n ==> values[j] == config.spec_get_str(coauthor_key(j, key))->Ok_0),
    decreases n,
{
    if n > 0 {
        law_coauthors_config_reads(config, key, (n - 1) as nat);
        assert(config.spec_get_str(coauthor_key(n - 1, key)) is Ok);
    }
}

/// When the read of `key` for co-author `f` is the first that fails among
/// the co-authors `0..n`, the outcome is that read's error, with the reading
/// context put around it once for `f` and once more for each co-author after
/// it: `n - f` times.
pub proof fn law_coauthors_config_first_failure<V: Vcs>(config: &V, key: Seq<char>, n: nat, f: nat)
    requires
        f < n,
        forall|j: int| 0 <= j < f ==> #[trigger] config.spec_get_str(coauthor_key(j, key)) is Ok,
        config.spec_get_str(coauthor_key(f as int, key)) is Err,
    ensures
        spec_coauthors_config(config, key, n) == Err::<Seq<Option<Seq<char>>>, (VcsError, nat)>(
            (config.spec_get_str(coauthor_key(f as int, key))->Err_0, (n - f) as nat),
        ),
    decreases n,
{
    if n == f + 1 {
        law_coauthors_config_reads(config, key, f);
    } else {
        law_coauthors_config_first_failure(config, key, (n - 1) as nat, f);
    }
}

/// Reading the names (or the emails) of the co-authors configured one after
/// another never fails, and gives one set value per co-author, in order.
pub proof fn law_coauthor_names_and_emails_read<V: Vcs>(config: &V, n: int)
    requires
        leading_coauthors(config, n),
    ensures
        spec_coauthors_config(config, "name"@, n as nat) matches Ok(names) && names.len() == n && (
        forall|j: int| 0 <= j < n ==> names[j] is Some),
        spec_coauthors_config(config, "email"@, n as nat) matches Ok(emails) && emails.len() == n && (
        forall|j: int| 0 <= j < n ==> emails[j] is Some),
{
    assert forall|j: int| 0 <= j < n implies #[trigger] config.spec_get_str(coauthor_key(j, "name"@)) matches Ok(Some(_)) by {
        assert(spec_has_coauthor(config, j));
    }
    assert forall|j: int| 0 <= j < n implies #[trigger] config.spec_get_str(coauthor_key(j, "email"@)) matches Ok(Some(_)) by {
        assert(spec_has_coauthor(config, j));
    }
    law_coauthors_config_reads(config, "name"@, n as nat);
    law_coauthors_config_reads(config, "email"@, n as nat);
}

} // verus!
