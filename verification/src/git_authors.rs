//! The decisions of `git-authors`: which initials were not found, what it
//! says about them, where the author configuration comes from, and how long
//! the chosen authors stay set.

use vstd::prelude::*;

use crate::duration::{duration_from_secs, duration_of_secs, spec_minutes_to_seconds};
use crate::text::{join, parse_u64, seq_join, spec_parse_u64, texts};

verus! {

/// Where the author configuration is read from.
#[derive(Debug, PartialEq, Eq)]
pub enum AuthorConfigSource {
    /// The standard output of this shell command.
    Command(String),
    /// The contents of the file at this path.
    File(String),
}

/// The initials, among the first `n`, whose author was not found.
pub open spec fn failed_initials_upto<A>(selected: Seq<Option<A>>, initials: Seq<Seq<char>>, n: nat) -> Seq<
    Seq<char>,
>
    decreases n,
{
    if n == 0 {
        Seq::empty()
    } else {
        let before = failed_initials_upto(selected, initials, (n - 1) as nat);
        if selected[n - 1] is None {
            before.push(initials[n - 1])
        } else {
            before
        }
    }
}

/// The initials whose author was not found, pairing each lookup result with
/// the initials at the same position, as far as both lists go.
pub open spec fn spec_failed_initials<A>(selected: Seq<Option<A>>, initials: Seq<Seq<char>>) -> Seq<
    Seq<char>,
> {
    let n = if selected.len() <= initials.len() {
        selected.len()
    } else {
        initials.len()
    };
    failed_initials_upto(selected, initials, n)
}

/// The initials whose author lookup in `selected` found nothing.
pub fn failed_initials<A>(selected: &Vec<Option<A>>, initials: &Vec<String>) -> (r: Vec<String>)
    ensures
        texts(r@) == spec_failed_initials(selected@, texts(initials@)),
        texts(r@) == initials_at(
            texts(initials@),
            positions(
                if selected@.len() <= initials@.len() {
                    selected@.len()
                } else {
                    initials@.len()
                },
            ).filter(not_found(selected@)),
        ),
{
    proof {
        law_failed_initials_exactly(selected@, texts(initials@));
    }
    let n = if selected.len() <= initials.len() {
        selected.len()
    } else {
        initials.len()
    };
    let mut r: Vec<String> = Vec::new();
    let mut i: usize = 0;
    while i < n
        invariant
            i <= n,
            n <= selected@.len(),
            n <= initials@.len(),
            texts(r@) == failed_initials_upto(selected@, texts(initials@), i as nat),
        decreases n - i,
    {
        if selected[i].is_none() {
            let ghost before = r@;
            r.push(initials[i].clone());
            assert(texts(r@) =~= texts(before).push(initials@[i as int]@));
        }
        i = i + 1;
    }
    r
}

/// What `git-authors` says when some initials are not in the configuration.
pub open spec fn spec_unknown_initials_message(failed: Seq<Seq<char>>) -> Seq<char> {
    "\nCould not find the initials "@ + seq_join(failed, ", "@)
        + ".\n\nYou can fix this by checking the initials are in the configuration file.\n"@
}

/// The message for initials that are not in the configuration.
pub fn unknown_initials_message(failed: &Vec<String>) -> (r: String)
    ensures
        r@ == spec_unknown_initials_message(texts(failed@)),
{
    let mut r = String::new();
    r.append("\nCould not find the initials ");
    let joined = join(failed, ", ");
    r.append(joined.as_str());
    r.append(".\n\nYou can fix this by checking the initials are in the configuration file.\n");
    assert(r@ =~= spec_unknown_initials_message(texts(failed@)));
    r
}

/// Reads the timeout in minutes from its command-line value. `git-authors`
/// stops with a panic where no timeout is given or the text is not a `u64`;
/// those inputs are left to the caller.
pub fn get_timeout(timeout: Option<&str>) -> (r: u64)
    requires
        timeout matches Some(t) && spec_parse_u64(t@) is Some,
    ensures
        timeout matches Some(t) && spec_parse_u64(t@) == Some(r),
{
    match timeout {
        Some(t) => match parse_u64(t) {
            Some(m) => m,
            None => 0,
        },
        None => 0,
    }
}

/// How long the chosen authors stay set: `minutes` minutes.
pub fn expires_in(minutes: u64) -> (d: std::time::Duration)
    requires
        minutes * 60 <= u64::MAX,
    ensures
        d == duration_of_secs(spec_minutes_to_seconds(minutes as int) as u64),
        d == duration_of_secs((minutes * 60) as u64),
{
    duration_from_secs(minutes * 60)
}

/// Where to read the author configuration: the command's output when a
/// command is given, else the file.
pub fn get_author_config(command: Option<String>, file: String) -> (r: AuthorConfigSource)
    ensures
        r == match command {
            Some(c) => AuthorConfigSource::Command(c),
            None => AuthorConfigSource::File(file),
        },
{
    match command {
        Some(c) => AuthorConfigSource::Command(c),
        None => AuthorConfigSource::File(file),
    }
}

proof fn lemma_failed_initials_upto<A>(selected: Seq<Option<A>>, initials: Seq<Seq<char>>, n: nat)
    requires
        n <= selected.len(),
        n <= initials.len(),
    ensures
        failed_initials_upto(selected, initials, n).len() == 0 <==> (forall|i: int|
            0 <= i < n ==> #[trigger] selected[i] is Some),
        forall|k: int|
            #![trigger failed_initials_upto(selected, initials, n)[k]]
            0 <= k < failed_initials_upto(selected, initials, n).len() ==> exists|i: int|
                0 <= i < n && #[trigger] selected[i] is None && initials[i]
                    == failed_initials_upto(selected, initials, n)[k],
    decreases n,
{
    if n > 0 {
        lemma_failed_initials_upto(selected, initials, (n - 1) as nat);
        let before = failed_initials_upto(selected, initials, (n - 1) as nat);
        let now = failed_initials_upto(selected, initials, n);
        if selected[n - 1] is None {
            assert(now.len() > 0);
            assert forall|k: int| #![trigger now[k]] 0 <= k < now.len() implies exists|i: int|
                0 <= i < n && #[trigger] selected[i] is None && initials[i] == now[k] by {
                if k < before.len() {
                    assert(now[k] == before[k]);
                } else {
                    assert(selected[n - 1] is None && initials[n - 1] == now[k]);
                }
            }
        } else {
            assert(now == before);
            if now.len() == 0 {
                assert forall|i: int| 0 <= i < n implies #[trigger] selected[i] is Some by {
                    if i < n - 1 {
                        assert(selected[i] is Some);
                    }
                }
            }
        }
    }
}

/// `git-authors` goes on exactly when every initial's author was found, and
/// every initial it reports as not found is one given whose lookup found
/// nothing.
pub proof fn law_failed_initials<A>(selected: Seq<Option<A>>, initials: Seq<Seq<char>>)
    requires
        selected.len() == initials.len(),
    ensures
        spec_failed_initials(selected, initials).len() == 0 <==> (forall|i: int|
            0 <= i < selected.len() ==> #[trigger] selected[i] is Some),
        forall|k: int|
            #![trigger spec_failed_initials(selected, initials)[k]]
            0 <= k < spec_failed_initials(selected, initials).len() ==> exists|i: int|
                0 <= i < selected.len() && #[trigger] selected[i] is None && initials[i]
                    == spec_failed_initials(selected, initials)[k],
{
    lemma_failed_initials_upto(selected, initials, selected.len());
}

/// The positions `0..n`, in order.
pub open spec fn positions(n: nat) -> Seq<int> {
    Seq::new(n, |i: int| i)
}

/// Whether the lookup at position `i` found nothing.
pub open spec fn not_found<A>(selected: Seq<Option<A>>) -> spec_fn(int) -> bool {
    |i: int| selected[i] is None
}

/// The initials at the given positions.
pub open spec fn initials_at(initials: Seq<Seq<char>>, at: Seq<int>) -> Seq<Seq<char>> {
    at.map_values(|i: int| initials[i])
}

proof fn lemma_failed_initials_filter<A>(selected: Seq<Option<A>>, initials: Seq<Seq<char>>, n: nat)
    requires
        n <= selected.len(),
        n <= initials.len(),
    ensures
        failed_initials_upto(selected, initials, n) == initials_at(
            initials,
            positions(n).filter(not_found(selected)),
        ),
    decreases n,
{
    let pred = not_found(selected);
    reveal_with_fuel(Seq::<int>::filter, 1);
    if n > 0 {
        lemma_failed_initials_filter(selected, initials, (n - 1) as nat);
        assert(positions(n).drop_last() =~= positions((n - 1) as nat));
        assert(positions(n).last() == n - 1);
        let before = positions((n - 1) as nat).filter(pred);
        assert(positions(n).filter(pred) == if pred(n - 1) {
            before.push(n - 1)
        } else {
            before
        });
        if selected[n - 1] is None {
            assert(initials_at(initials, before.push(n - 1)) =~= initials_at(initials, before).push(
                initials[n - 1],
            ));
        }
    } else {
        assert(positions(n).filter(pred) =~= Seq::<int>::empty());
        assert(initials_at(initials, positions(n).filter(pred)) =~= Seq::<Seq<char>>::empty());
    }
}

/// The initials reported as not found are exactly the initials at the
/// positions whose lookup found nothing, in the order given, pairing the
/// lookups and the initials as far as both lists go: every such initial is
/// reported, and there is one report for each lookup that found nothing.
pub proof fn law_failed_initials_exactly<A>(selected: Seq<Option<A>>, initials: Seq<Seq<char>>)
    ensures
        ({
            let n = if selected.len() <= initials.len() {
                selected.len()
            } else {
                initials.len()
            };
            &&& spec_failed_initials(selected, initials) == initials_at(
                initials,
                positions(n).filter(not_found(selected)),
            )
            &&& spec_failed_initials(selected, initials).len() == positions(n).filter(
                not_found(selected),
            ).len()
            &&& forall|i: int|
                0 <= i < n && #[trigger] selected[i] is None ==> spec_failed_initials(
                    selected,
                    initials,
                ).contains(initials[i])
        }),
{
    let n = if selected.len() <= initials.len() {
        selected.len()
    } else {
        initials.len()
    };
    let pred = not_found(selected);
    lemma_failed_initials_filter(selected, initials, n);
    assert forall|i: int| 0 <= i < n && #[trigger] selected[i] is None implies spec_failed_initials(
        selected,
        initials,
    ).contains(initials[i]) by {
        assert(positions(n)[i] == i);
        assert(pred(positions(n)[i]));
        positions(n).lemma_filter_contains(pred, i);
        let f = positions(n).filter(pred);
        let k = choose|k: int| 0 <= k < f.len() && f[k] == i;
        assert(initials_at(initials, f)[k] == initials[i]);
    }
}

} // verus!
