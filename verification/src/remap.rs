//! Remapping the base key and retrying registrations, as decisions over the
//! accelerator names; the registrations themselves are made by the caller.
//!
//! A remap unregisters the old pair, registers the new pair in order, and,
//! when one registration fails, unregisters what it did register and
//! registers the old pair again, so that the overlay keeps working hotkeys.
use vstd::prelude::*;

use crate::hotkey::{
    hotkey_accels, hotkey_base_rejection, is_valid_hotkey_base, spec_all_accels,
    spec_hotkey_accels, validate_hotkey_base, accels_view, all_accels, lemma_prefix_split,
};
use crate::text::{chars_equal, chars_of, trim, trimmed};

verus! {

/// The error of a remap whose new pair could not be registered.
pub const KEY_TAKEN: &'static str = "key already taken by another application";

/// Character sequences of a list of strings.
pub open spec fn strings_view(v: Seq<String>) -> Seq<Seq<char>> {
    v.map_values(|s: String| s@)
}

/// The accelerator names of an accelerator list.
pub open spec fn accel_names(v: Seq<(Seq<char>, Seq<char>)>) -> Seq<Seq<char>> {
    v.map_values(|p: (Seq<char>, Seq<char>)| p.0)
}

/// A remap that goes ahead: `base` is the new base key, `release` the old
/// pair to unregister first, `claim` the new pair to register, in order.
pub struct RemapSwitch {
    pub base: String,
    pub release: Vec<String>,
    pub claim: Vec<String>,
}

/// What a request to remap the base key comes to.
pub enum RemapPlan {
    /// The requested key is refused, with the reason; nothing changes.
    Rejected(String),
    /// The requested key is already the base key; nothing changes.
    Unchanged(String),
    /// The requested key replaces the base key.
    Switch(RemapSwitch),
}

/// What undoing a failed remap takes: unregister `release` (what the remap
/// had registered), register `claim` (the old pair) again, and report
/// `error`.
pub struct Rollback {
    pub release: Vec<String>,
    pub claim: Vec<String>,
    pub error: String,
}

/// The accelerator names of a list of (accelerator, action) pairs.
fn names_of(accels: &Vec<(String, &'static str)>) -> (r: Vec<String>)
    ensures
        strings_view(r@) == accel_names(accels_view(accels@)),
{
    let mut r: Vec<String> = Vec::new();
    let mut i: usize = 0;
    while i < accels.len()
        invariant
            i <= accels.len(),
            r@.len() == i,
            forall|j: int| 0 <= j < i ==> #[trigger] r@[j]@ == accels@[j].0@,
        decreases accels.len() - i,
    {
        r.push(accels[i].0.clone());
        i = i + 1;
    }
    assert(strings_view(r@) =~= accel_names(accels_view(accels@)));
    r
}

/// Decides a request to make `requested` the base key, `current` being the
/// base key in force: the request is trimmed, then refused with the reason
/// `validate_hotkey_base` gives, found unchanged, or turned into a switch
/// from `current`'s pair to the new pair.
pub fn plan_remap(current: &str, requested: &str) -> (r: RemapPlan)
    ensures
        ({
            let t = trimmed(requested@);
            match r {
                RemapPlan::Rejected(e) => hotkey_base_rejection(t) == Some(e@),
                RemapPlan::Unchanged(b) => is_valid_hotkey_base(t) && t == current@ && b@ == t,
                RemapPlan::Switch(s) => {
                    &&& is_valid_hotkey_base(t)
                    &&& t != current@
                    &&& s.base@ == t
                    &&& strings_view(s.release@) == accel_names(spec_hotkey_accels(current@))
                    &&& strings_view(s.claim@) == accel_names(spec_hotkey_accels(t))
                },
            }
        }),
{
    let base = trim(requested);
    match validate_hotkey_base(base.as_str()) {
        Err(e) => {
            return RemapPlan::Rejected(e);
        },
        Ok(()) => {},
    }
    let current_chars = chars_of(current);
    let base_chars = chars_of(base.as_str());
    if chars_equal(&current_chars, &base_chars) {
        return RemapPlan::Unchanged(base);
    }
    let release = names_of(&hotkey_accels(current));
    let claim = names_of(&hotkey_accels(base.as_str()));
    RemapPlan::Switch(RemapSwitch { base, release, claim })
}

/// Undoes a switch whose registration of `claim[registered]` failed, after
/// `claim[0..registered]` went through: those are unregistered and the old
/// pair is registered again.
pub fn rollback_remap(switch: &RemapSwitch, registered: usize) -> (r: Rollback)
    requires
        registered <= switch.claim.len(),
    ensures
        strings_view(r.release@) == strings_view(switch.claim@).take(registered as int),
        strings_view(r.claim@) == strings_view(switch.release@),
        r.error@ == KEY_TAKEN@,
{
    let mut release: Vec<String> = Vec::new();
    let mut i: usize = 0;
    while i < registered
        invariant
            registered <= switch.claim.len(),
            i <= registered,
            release@.len() == i,
            forall|j: int| 0 <= j < i ==> #[trigger] release@[j]@ == switch.claim@[j]@,
        decreases registered - i,
    {
        release.push(switch.claim[i].clone());
        i = i + 1;
    }
    let claim = switch.release.clone();
    assert(strings_view(release@) =~= strings_view(switch.claim@).take(registered as int));
    assert(strings_view(claim@) =~= strings_view(switch.release@));
    Rollback { release, claim, error: KEY_TAKEN.to_owned() }
}

/// The names of the accelerators live for `base`.
pub open spec fn live_names(base: Seq<char>) -> Seq<Seq<char>> {
    accel_names(spec_all_accels(base))
}

/// The accelerators still awaiting registration that remain wanted once the
/// base key is `current_base`: those of `pending` that are live for it, in
/// order. A pair belonging to a replaced base key is dropped, never retried.
pub fn still_wanted(pending: &Vec<String>, current_base: &str) -> (r: Vec<String>)
    ensures
        strings_view(r@) == strings_view(pending@).filter(
            |a: Seq<char>| live_names(current_base@).contains(a),
        ),
{
    let live = names_of(&all_accels(current_base));
    let ghost wanted = |a: Seq<char>| live_names(current_base@).contains(a);
    let mut r: Vec<String> = Vec::new();
    let mut i: usize = 0;
    while i < pending.len()
        invariant
            strings_view(live@) == live_names(current_base@),
            wanted == (|a: Seq<char>| live_names(current_base@).contains(a)),
            i <= pending.len(),
            strings_view(r@) == strings_view(pending@).take(i as int).filter(wanted),
        decreases pending.len() - i,
    {
        let name = chars_of(pending[i].as_str());
        let mut found = false;
        let mut j: usize = 0;
        while j < live.len()
            invariant
                strings_view(live@) == live_names(current_base@),
                i < pending.len(),
                name@ == pending@[i as int]@,
                j <= live.len(),
                found == exists|k: int| 0 <= k < j && live@[k]@ == name@,
            decreases live.len() - j,
        {
            let candidate = chars_of(live[j].as_str());
            if chars_equal(&candidate, &name) {
                found = true;
            }
            j = j + 1;
        }
        let ghost before = strings_view(pending@).take(i as int);
        let ghost after = strings_view(pending@).take(i + 1);
        let ghost old_r = strings_view(r@);
        proof {
            assert(after.drop_last() =~= before);
            assert(after.last() == pending@[i as int]@);
            assert(found == live_names(current_base@).contains(pending@[i as int]@)) by {
                if found {
                    let k = choose|k: int| 0 <= k < live.len() && live@[k]@ == name@;
                    assert(strings_view(live@)[k] == live@[k]@);
                } else {
                    assert forall|k: int|
                        0 <= k < live_names(current_base@).len() implies live_names(
                        current_base@,
                    )[k] != pending@[i as int]@ by {
                        assert(strings_view(live@)[k] == live@[k]@);
                    }
                }
            }
            reveal_with_fuel(Seq::filter, 1);
            assert(after.filter(wanted) == if wanted(after.last()) {
                after.drop_last().filter(wanted).push(after.last())
            } else {
                after.drop_last().filter(wanted)
            });
        }
        if found {
            r.push(pending[i].clone());
            proof {
                assert(strings_view(r@) =~= old_r.push(pending@[i as int]@));
            }
        }
        i = i + 1;
    }
    assert(strings_view(pending@).take(pending.len() as int) =~= strings_view(pending@));
    r
}

/// How many times a failed registration is retried.
pub const RETRY_ROUNDS: usize = 5;

/// Most registration attempts of one accelerator: the first, then one per
/// retry round.
pub const MAX_ATTEMPTS: usize = 6;

/// Seconds to wait before each retry round: 2, 4, 8, 16, 32.
pub open spec fn retry_delays() -> Seq<u64> {
    seq![2u64, 4u64, 8u64, 16u64, 32u64]
}

/// What the retry loop does next.
#[derive(Clone, Copy, Debug, PartialEq, Eq, Structural)]
pub enum RetryStep {
    /// Wait this many seconds, then retry what is still wanted.
    Wait(u64),
    /// Everything is registered: stop.
    Done,
    /// Rounds are used up: the rest is taken by another application.
    GiveUp,
}

/// The retry decision after `round` rounds, with `pending` still
/// unregistered: stop when nothing is pending, give up after five rounds,
/// otherwise wait 2, 4, 8, 16 or 32 seconds (doubling each round).
pub open spec fn spec_retry_step(round: int, pending_len: int) -> RetryStep {
    if pending_len == 0 {
        RetryStep::Done
    } else if round < RETRY_ROUNDS {
        RetryStep::Wait(retry_delays()[round])
    } else {
        RetryStep::GiveUp
    }
}

/// The next step of the retry loop after `round` rounds.
pub fn retry_step(round: usize, pending: &Vec<String>) -> (r: RetryStep)
    ensures
        r == spec_retry_step(round as int, pending@.len() as int),
{
    if pending.len() == 0 {
        return RetryStep::Done;
    }
    if round >= RETRY_ROUNDS {
        return RetryStep::GiveUp;
    }
    let delays: [u64; 5] = [2, 4, 8, 16, 32];
    assert(delays@ =~= retry_delays());
    RetryStep::Wait(delays[round])
}

/// The accelerators of `tried` whose registration failed (`registered[i]`
/// false), in order.
pub open spec fn failed_ones(tried: Seq<Seq<char>>, registered: Seq<bool>) -> Seq<Seq<char>>
    decreases tried.len(),
{
    if tried.len() == 0 {
        Seq::empty()
    } else {
        let rest = failed_ones(tried.drop_last(), registered.drop_last());
        if registered.last() {
            rest
        } else {
            rest.push(tried.last())
        }
    }
}

/// How many registrations of a round failed.
pub open spec fn failure_count(registered: Seq<bool>) -> nat {
    registered.filter(|b: bool| !b).len()
}

/// The accelerators of `tried` paired with a failed registration, in order.
pub open spec fn paired_failures(tried: Seq<Seq<char>>, registered: Seq<bool>) -> Seq<Seq<char>> {
    tried.zip_with(registered).filter(|p: (Seq<char>, bool)| !p.1).map_values(
        |p: (Seq<char>, bool)| p.0,
    )
}

/// After a retry round, every accelerator whose registration failed stays
/// pending, in the order tried, nothing that registered or was never tried
/// does, and there are as many pending as there were failures.
pub proof fn failures_stay_pending(tried: Seq<Seq<char>>, registered: Seq<bool>)
    requires
        tried.len() == registered.len(),
    ensures
        failed_ones(tried, registered) == paired_failures(tried, registered),
        failed_ones(tried, registered).len() == failure_count(registered),
        forall|i: int|
            0 <= i < tried.len() && !registered[i] ==> failed_ones(tried, registered).contains(
                #[trigger] tried[i],
            ),
        forall|k: int|
            0 <= k < failed_ones(tried, registered).len() ==> exists|i: int|
                0 <= i < tried.len() && !registered[i] && tried[i] == #[trigger] failed_ones(
                    tried,
                    registered,
                )[k],
    decreases tried.len(),
{
    if tried.len() > 0 {
        let t0 = tried.drop_last();
        let r0 = registered.drop_last();
        failures_stay_pending(t0, r0);
        let rest = failed_ones(t0, r0);
        let out = failed_ones(tried, registered);
        let n = tried.len() - 1;
        reveal_with_fuel(Seq::filter, 1);
        assert(registered.drop_last() == r0);
        let z = tried.zip_with(registered);
        let z0 = t0.zip_with(r0);
        if n == 0 {
            assert(z0 =~= Seq::<(Seq<char>, bool)>::empty());
        }
        assert(z.drop_last() =~= z0);
        assert(z.last() == (tried[n], registered[n]));
        let f = |p: (Seq<char>, bool)| !p.1;
        let g = |p: (Seq<char>, bool)| p.0;
        assert(z.filter(f) == if f(z.last()) {
            z0.filter(f).push(z.last())
        } else {
            z0.filter(f)
        });
        if !registered[n] {
            assert(z.filter(f).map_values(g) =~= z0.filter(f).map_values(g).push(tried[n]));
        }
        assert forall|i: int| 0 <= i < tried.len() && !registered[i] implies out.contains(
            #[trigger] tried[i],
        ) by {
            if i < n {
                assert(t0[i] == tried[i] && r0[i] == registered[i]);
                let k = choose|k: int| 0 <= k < rest.len() && rest[k] == t0[i];
                assert(out[k] == rest[k]);
            } else {
                assert(out[out.len() - 1] == tried[i]);
            }
        }
        assert forall|k: int| 0 <= k < out.len() implies exists|i: int|
            0 <= i < tried.len() && !registered[i] && tried[i] == #[trigger] out[k] by {
            if k < rest.len() {
                assert(out[k] == rest[k]);
                let i = choose|i: int| 0 <= i < t0.len() && !r0[i] && t0[i] == rest[k];
                assert(tried[i] == t0[i] && registered[i] == r0[i]);
            } else {
                assert(tried[n] == out[k]);
            }
        }
    }
}

/// What stays pending after a retry round: the accelerators of `tried`
/// whose registration failed (`registered[i]` false), in order; one that
/// registered is dropped.
pub fn retry_outcome(tried: &Vec<String>, registered: &Vec<bool>) -> (r: Vec<String>)
    requires
        tried.len() == registered.len(),
    ensures
        strings_view(r@) == failed_ones(strings_view(tried@), registered@),
        strings_view(r@) == paired_failures(strings_view(tried@), registered@),
        r@.len() == failure_count(registered@),
        forall|i: int|
            0 <= i < tried.len() && !registered@[i] ==> strings_view(r@).contains(
                #[trigger] tried@[i]@,
            ),
{
    let mut r: Vec<String> = Vec::new();
    let mut i: usize = 0;
    while i < tried.len()
        invariant
            tried.len() == registered.len(),
            i <= tried.len(),
            strings_view(r@) == failed_ones(
                strings_view(tried@).take(i as int),
                registered@.take(i as int),
            ),
        decreases tried.len() - i,
    {
        let ghost old_r = strings_view(r@);
        proof {
            assert(strings_view(tried@).take(i + 1).drop_last() =~= strings_view(tried@).take(
                i as int,
            ));
            assert(registered@.take(i + 1).drop_last() =~= registered@.take(i as int));
        }
        if !registered[i] {
            r.push(tried[i].clone());
            assert(strings_view(r@) =~= old_r.push(tried@[i as int]@));
        }
        i = i + 1;
    }
    assert(strings_view(tried@).take(tried.len() as int) =~= strings_view(tried@));
    assert(registered@.take(tried.len() as int) =~= registered@);
    proof {
        failures_stay_pending(strings_view(tried@), registered@);
        assert forall|i: int| 0 <= i < tried.len() implies strings_view(tried@)[i]
            == #[trigger] tried@[i]@ by {}
    }
    r
}

/// The retry loop waits at most five times, doubling the wait from 2 to 32
/// seconds, so an accelerator is tried at most six times in all: a round
/// that retries it comes after at most `round + 1` earlier attempts.
pub proof fn retries_are_bounded(round: int, pending_len: int)
    requires
        0 <= round,
    ensures
        spec_retry_step(round, pending_len) is Wait ==> round + 2 <= MAX_ATTEMPTS,
        spec_retry_step(round, pending_len) is Wait && round > 0 ==> spec_retry_step(
            round,
            pending_len,
        )->0 == 2 * spec_retry_step(round - 1, pending_len)->0,
        round >= RETRY_ROUNDS && pending_len > 0 ==> spec_retry_step(round, pending_len)
            == RetryStep::GiveUp,
{
}

/// The registered accelerators after unregistering `names`.
pub open spec fn after_release(registered: Set<Seq<char>>, names: Seq<Seq<char>>) -> Set<
    Seq<char>,
> {
    registered.difference(names.to_set())
}

/// The registered accelerators after registering `names`.
pub open spec fn after_claim(registered: Set<Seq<char>>, names: Seq<Seq<char>>) -> Set<Seq<char>> {
    registered.union(names.to_set())
}

/// No accelerator of one valid base key is an accelerator of another, and
/// none is the fixed Control+E.
proof fn lemma_accels_apart(current: Seq<char>, target: Seq<char>)
    requires
        is_valid_hotkey_base(current),
        is_valid_hotkey_base(target),
        current != target,
    ensures
        !live_names(current).contains(target),
        !live_names(current).contains("Shift+"@ + target),
        !accel_names(spec_hotkey_accels(current)).contains("Control+KeyE"@),
        !accel_names(spec_hotkey_accels(target)).contains("Control+KeyE"@),
        live_names(current) == seq![current, "Shift+"@ + current, "Control+KeyE"@],
        live_names(target) == seq![target, "Shift+"@ + target, "Control+KeyE"@],
        accel_names(spec_hotkey_accels(current)) == seq![current, "Shift+"@ + current],
        accel_names(spec_hotkey_accels(target)) == seq![target, "Shift+"@ + target],
{
    reveal_strlit("Shift+");
    reveal_strlit("Control+KeyE");
    assert(live_names(current) =~= seq![current, "Shift+"@ + current, "Control+KeyE"@]);
    assert(live_names(target) =~= seq![target, "Shift+"@ + target, "Control+KeyE"@]);
    assert(accel_names(spec_hotkey_accels(current)) =~= seq![current, "Shift+"@ + current]);
    assert(accel_names(spec_hotkey_accels(target)) =~= seq![target, "Shift+"@ + target]);
    // Shift+x and Control+KeyE hold a `+`; valid base keys hold none.
    assert(("Shift+"@ + current)[5] == '+');
    assert(("Shift+"@ + target)[5] == '+');
    assert("Control+KeyE"@[7] == '+');
    // Shift+x starts with `S`, Control+KeyE with `C`.
    assert(("Shift+"@ + current)[0] != "Control+KeyE"@[0]);
    assert(("Shift+"@ + target)[0] != "Control+KeyE"@[0]);
    if "Shift+"@ + target == "Shift+"@ + current {
        assert(target =~= ("Shift+"@ + target).skip(6));
        assert(current =~= ("Shift+"@ + current).skip(6));
    }
}

/// A remap never touches the fixed Control+E accelerator: it is neither in
/// the pair a switch releases nor in the pair it claims.
pub proof fn remap_leaves_the_fixed_hotkey(current: Seq<char>, target: Seq<char>)
    requires
        is_valid_hotkey_base(current),
        is_valid_hotkey_base(target),
        current != target,
    ensures
        !accel_names(spec_hotkey_accels(current)).contains("Control+KeyE"@),
        !accel_names(spec_hotkey_accels(target)).contains("Control+KeyE"@),
{
    lemma_accels_apart(current, target);
}

/// Starting from the accelerators live for `current`, a switch to `target`
/// that registers its whole pair ends with exactly the accelerators live for
/// `target`; one whose registration fails after `k` of them, once rolled
/// back, ends with exactly the accelerators it started from.
pub proof fn remap_ends_on_a_complete_set(current: Seq<char>, target: Seq<char>, k: int)
    requires
        is_valid_hotkey_base(current),
        is_valid_hotkey_base(target),
        current != target,
        0 <= k <= 2,
    ensures
        ({
            let before = live_names(current).to_set();
            let release = accel_names(spec_hotkey_accels(current));
            let claim = accel_names(spec_hotkey_accels(target));
            &&& after_claim(after_release(before, release), claim) == live_names(target).to_set()
            &&& after_claim(
                after_release(after_claim(after_release(before, release), claim.take(k)), claim.take(k)),
                release,
            ) == before
        }),
{
    lemma_accels_apart(current, target);
    lemma_accels_apart(target, current);
    let before = live_names(current).to_set();
    let release = accel_names(spec_hotkey_accels(current));
    let claim = accel_names(spec_hotkey_accels(target));
    let fixed = "Control+KeyE"@;
    assert(after_claim(after_release(before, release), claim) =~= live_names(target).to_set()) by {
        assert(release.contains(current) && release[1] == "Shift+"@ + current);
        assert(claim[0] == target && claim[1] == "Shift+"@ + target);
        assert(live_names(target)[2] == fixed && live_names(current)[2] == fixed);
    }
    let partial = claim.take(k);
    assert(after_claim(after_release(after_claim(after_release(before, release), partial), partial), release) =~= before) by {
        assert(release[0] == current && release[1] == "Shift+"@ + current);
        assert(live_names(current)[2] == fixed);
        assert forall|a: Seq<char>| partial.contains(a) implies !before.contains(a) by {
            let i = choose|i: int| 0 <= i < partial.len() && partial[i] == a;
            assert(a == claim[i]);
        }
    }
}

/// The fixed Control+E accelerator is never dropped from the retries,
/// whatever the base key has become.
pub proof fn retries_keep_the_fixed_hotkey(pending: Seq<Seq<char>>, current_base: Seq<char>)
    requires
        pending.contains("Control+KeyE"@),
    ensures
        pending.filter(|a: Seq<char>| live_names(current_base).contains(a)).contains(
            "Control+KeyE"@,
        ),
{
    let i = choose|i: int| 0 <= i < pending.len() && pending[i] == "Control+KeyE"@;
    assert(live_names(current_base)[2] == "Control+KeyE"@);
    pending.lemma_filter_contains(|a: Seq<char>| live_names(current_base).contains(a), i);
}

} // verus!
