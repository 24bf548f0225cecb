use vstd::prelude::*;

use crate::device::{marks_default, AudioDevice};
use vstd::arithmetic::div_mod::{lemma_add_mod_noop, lemma_mod_add_multiples_vanish, lemma_small_mod};

verus! {

/// Whether `id` is named by the exclusion list.
pub open spec fn is_excluded(excluded: Seq<String>, id: Seq<char>) -> bool {
    exists|j: int| 0 <= j < excluded.len() && (#[trigger] excluded[j])@ == id
}

/// The devices of `all` whose id is not excluded, in the order of `all`.
pub open spec fn included_of(all: Seq<AudioDevice>, excluded: Seq<String>) -> Seq<AudioDevice>
    decreases all.len(),
{
    if all.len() == 0 {
        Seq::empty()
    } else {
        let rest = included_of(all.drop_last(), excluded);
        if is_excluded(excluded, all.last().id@) {
            rest
        } else {
            rest.push(all.last())
        }
    }
}

/// The index of the first device marked default, if any.
pub open spec fn default_pos(s: Seq<AudioDevice>) -> Option<int>
    decreases s.len(),
{
    if s.len() == 0 {
        None
    } else {
        match default_pos(s.drop_last()) {
            Some(i) => Some(i),
            None => if s.last().is_default {
                Some(s.len() - 1)
            } else {
                None
            },
        }
    }
}

/// The index that follows the default one, wrapping round; the first index
/// when no device is marked default.
pub open spec fn next_index(s: Seq<AudioDevice>) -> int {
    match default_pos(s) {
        Some(i) => (i + 1) % (s.len() as int),
        None => 0,
    }
}

/// The list that a selection rotates over: the included devices, or all of
/// them where the exclusion list leaves none.
pub open spec fn pool_of(all: Seq<AudioDevice>, excluded: Seq<String>) -> Seq<AudioDevice> {
    if included_of(all, excluded).len() > 0 {
        included_of(all, excluded)
    } else {
        all
    }
}

/// The index, within `pool_of(all, excluded)`, of the device selected next.
pub open spec fn chosen_index(all: Seq<AudioDevice>, excluded: Seq<String>) -> int {
    next_index(pool_of(all, excluded))
}

/// The device selected next.
pub open spec fn chosen(all: Seq<AudioDevice>, excluded: Seq<String>) -> AudioDevice {
    pool_of(all, excluded)[chosen_index(all, excluded)]
}

/// The device chosen to become default, and its 1-based place in the list
/// that was rotated over.
#[derive(Clone, Debug)]
pub struct SelectionResult {
    pub device: AudioDevice,
    pub position_in_filtered_list: usize,
}

/// Why no device could be selected.
#[derive(Clone, Copy, Debug, PartialEq, Eq, Structural)]
pub enum SelectError {
    /// The device list was empty.
    NoDevices,
}

impl SelectError {
    /// The message shown to the user.
    pub fn message(&self) -> (r: &'static str)
        ensures
            r@ == "No audio devices found"@,
    {
        "No audio devices found"
    }
}

pub proof fn lemma_default_pos_bounds(s: Seq<AudioDevice>)
    ensures
        default_pos(s) matches Some(i) ==> 0 <= i < s.len() && s[i].is_default,
        default_pos(s) is None ==> forall|i: int| 0 <= i < s.len() ==> !(#[trigger] s[i]).is_default,
    decreases s.len(),
{
    if s.len() > 0 {
        lemma_default_pos_bounds(s.drop_last());
        if default_pos(s.drop_last()) is None {
            assert forall|i: int| 0 <= i < s.len() - 1 implies !(#[trigger] s[i]).is_default by {
                assert(s[i] == s.drop_last()[i]);
            }
        }
    }
}

proof fn lemma_default_pos_prefix(s: Seq<AudioDevice>, k: int)
    requires
        0 <= k <= s.len(),
        default_pos(s.take(k)) is Some,
    ensures
        default_pos(s) == default_pos(s.take(k)),
    decreases s.len(),
{
    if k == s.len() {
        assert(s.take(k) =~= s);
    } else {
        assert(s.drop_last().take(k) =~= s.take(k));
        lemma_default_pos_prefix(s.drop_last(), k);
    }
}

/// Whether `id` is named by `excluded`.
pub fn id_excluded(excluded: &Vec<String>, id: &String) -> (r: bool)
    ensures
        r == is_excluded(excluded@, id@),
{
    let mut j: usize = 0;
    while j < excluded.len()
        invariant
            j <= excluded@.len(),
            forall|k: int| 0 <= k < j ==> (#[trigger] excluded@[k])@ != id@,
        decreases excluded@.len() - j,
    {
        if excluded[j] == *id {
            assert(excluded@[j as int]@ == id@);
            return true;
        }
        j = j + 1;
    }
    false
}

/// The index of the first device marked default, if any.
pub fn find_default(s: &Vec<AudioDevice>) -> (r: Option<usize>)
    ensures
        match r {
            Some(i) => default_pos(s@) == Some(i as int) && i < s@.len(),
            None => default_pos(s@) is None,
        },
{
    let mut i: usize = 0;
    while i < s.len()
        invariant
            i <= s@.len(),
            default_pos(s@.take(i as int)) is None,
        decreases s@.len() - i,
    {
        assert(s@.take(i + 1).drop_last() =~= s@.take(i as int));
        if s[i].is_default {
            assert(default_pos(s@.take(i + 1)) == Some(i as int));
            proof {
                lemma_default_pos_prefix(s@, i + 1);
            }
            return Some(i);
        }
        i = i + 1;
    }
    assert(s@.take(i as int) =~= s@);
    None
}

/// The devices of `all` whose id is not excluded, in the order of `all`.
pub fn included_devices(all: &Vec<AudioDevice>, excluded: &Vec<String>) -> (r: Vec<AudioDevice>)
    ensures
        r@ == included_of(all@, excluded@),
{
    let mut inc: Vec<AudioDevice> = Vec::new();
    let mut i: usize = 0;
    while i < all.len()
        invariant
            i <= all@.len(),
            inc@ == included_of(all@.take(i as int), excluded@),
        decreases all@.len() - i,
    {
        assert(all@.take(i + 1).drop_last() =~= all@.take(i as int));
        if !id_excluded(excluded, &all[i].id) {
            inc.push(all[i].duplicate());
        }
        i = i + 1;
    }
    assert(all@.take(i as int) =~= all@);
    inc
}

/// Picks, from a non-empty list, the device after the default one (wrapping
/// round), or the first device when none is default.
fn rotate(s: &Vec<AudioDevice>) -> (r: SelectionResult)
    requires
        s@.len() > 0,
    ensures
        0 <= next_index(s@) < s@.len(),
        r.device == s@[next_index(s@)],
        r.position_in_filtered_list == next_index(s@) + 1,
{
    let n = s.len();
    let next: usize = match find_default(s) {
        Some(i) => (i + 1) % n,
        None => 0,
    };
    SelectionResult { device: s[next].duplicate(), position_in_filtered_list: next + 1 }
}

/// Rotates over every device, ignoring any exclusion: the device after the
/// default one, or the first device when none is default.
pub fn cycle_next_device_internal(devices: &Vec<AudioDevice>) -> (r: Result<SelectionResult, SelectError>)
    ensures
        devices@.len() == 0 <==> r is Err,
        r is Err ==> r == Err::<SelectionResult, SelectError>(SelectError::NoDevices),
        r matches Ok(sel) ==> sel.device == devices@[next_index(devices@)]
            && sel.position_in_filtered_list == next_index(devices@) + 1,
{
    if devices.len() == 0 {
        return Err(SelectError::NoDevices);
    }
    Ok(rotate(devices))
}

/// Selects the device to make default next: the one after the current
/// default among the devices that are not excluded, wrapping round, or the
/// first of them when none of them is default. Where every device is
/// excluded, the rotation runs over all devices instead.
pub fn select_next(all: &Vec<AudioDevice>, excluded: &Vec<String>) -> (r: Result<
    SelectionResult,
    SelectError,
>)
    ensures
        all@.len() == 0 <==> r is Err,
        r is Err ==> r == Err::<SelectionResult, SelectError>(SelectError::NoDevices),
        r matches Ok(sel) ==> 0 <= chosen_index(all@, excluded@) < pool_of(all@, excluded@).len()
            && sel.device == chosen(all@, excluded@)
            && sel.position_in_filtered_list == chosen_index(all@, excluded@) + 1,
        r matches Ok(sel) ==> included_of(all@, excluded@).len() > 0 ==> !is_excluded(
            excluded@,
            sel.device.id@,
        ),
{
    if all.len() == 0 {
        return Err(SelectError::NoDevices);
    }
    let inc = included_devices(all, excluded);
    if inc.len() == 0 {
        cycle_next_device_internal(all)
    } else {
        let sel = rotate(&inc);
        proof {
            lemma_included_members(all@, excluded@);
        }
        Ok(sel)
    }
}

/// The 1-based place of the default device among the included devices, for
/// the indicator; none when no included device is default.
pub fn current_indicator_position(all: &Vec<AudioDevice>, excluded: &Vec<String>) -> (r: Option<
    usize,
>)
    ensures
        match r {
            Some(p) => default_pos(included_of(all@, excluded@)) == Some(p - 1),
            None => default_pos(included_of(all@, excluded@)) is None,
        },
{
    let inc = included_devices(all, excluded);
    let n = inc.len();
    match find_default(&inc) {
        Some(i) => {
            assert(i < n);
            Some(i + 1)
        },
        None => None,
    }
}

/// The list that an enumeration reports once device `k` of `s` has been
/// made the default: the same devices in the same order, `k` alone marked.
pub open spec fn with_default(s: Seq<AudioDevice>, k: int) -> Seq<AudioDevice> {
    Seq::new(s.len(), |i: int| AudioDevice { id: s[i].id, name: s[i].name, is_default: i == k })
}

/// The list after `m` rounds of selecting with an empty exclusion list and
/// committing the selected device.
pub open spec fn cycle_rounds(s: Seq<AudioDevice>, m: nat) -> Seq<AudioDevice>
    decreases m,
{
    if m == 0 {
        s
    } else {
        cycle_rounds(with_default(s, chosen_index(s, Seq::empty())), (m - 1) as nat)
    }
}

/// An exclusion list that names nothing leaves every device included.
pub proof fn lemma_nothing_excluded(all: Seq<AudioDevice>)
    ensures
        included_of(all, Seq::empty()) == all,
        pool_of(all, Seq::empty()) == all,
    decreases all.len(),
{
    if all.len() > 0 {
        lemma_nothing_excluded(all.drop_last());
        assert(!is_excluded(Seq::empty(), all.last().id@));
        assert(all.drop_last().push(all.last()) =~= all);
    }
}

/// Each included device is a device of `all` that is not excluded.
pub proof fn lemma_included_members(all: Seq<AudioDevice>, excluded: Seq<String>)
    ensures
        forall|i: int|
            0 <= i < included_of(all, excluded).len() ==> !is_excluded(
                excluded,
                (#[trigger] included_of(all, excluded)[i]).id@,
            ) && exists|j: int| 0 <= j < all.len() && all[j] == included_of(all, excluded)[i],
    decreases all.len(),
{
    if all.len() > 0 {
        let rest = all.drop_last();
        lemma_included_members(rest, excluded);
        let inc = included_of(all, excluded);
        assert forall|i: int| 0 <= i < inc.len() implies !is_excluded(excluded, (#[trigger] inc[i]).id@)
            && exists|j: int| 0 <= j < all.len() && all[j] == inc[i] by {
            if i < included_of(rest, excluded).len() {
                assert(inc[i] == included_of(rest, excluded)[i]);
                let j = choose|j: int| 0 <= j < rest.len() && rest[j] == included_of(rest, excluded)[i];
                assert(all[j] == rest[j]);
            } else {
                assert(inc[i] == all[all.len() - 1]);
            }
        }
    }
}

/// Where every device is excluded, nothing is included.
pub proof fn lemma_all_excluded_empty(all: Seq<AudioDevice>, excluded: Seq<String>)
    requires
        forall|i: int| 0 <= i < all.len() ==> is_excluded(excluded, (#[trigger] all[i]).id@),
    ensures
        included_of(all, excluded).len() == 0,
    decreases all.len(),
{
    if all.len() > 0 {
        let rest = all.drop_last();
        assert forall|i: int| 0 <= i < rest.len() implies is_excluded(excluded, (#[trigger] rest[i]).id@) by {
            assert(rest[i] == all[i]);
        }
        lemma_all_excluded_empty(rest, excluded);
        assert(is_excluded(excluded, all[all.len() - 1].id@));
    }
}

/// A list whose only default device is at `k` has its default at `k`.
pub proof fn lemma_default_pos_unique(s: Seq<AudioDevice>, k: int)
    requires
        0 <= k < s.len(),
        s[k].is_default,
        forall|i: int| 0 <= i < s.len() && (#[trigger] s[i]).is_default ==> i == k,
    ensures
        default_pos(s) == Some(k),
{
    lemma_default_pos_bounds(s);
}

proof fn lemma_cycle_rounds_shift(s: Seq<AudioDevice>, d: int, m: nat)
    requires
        0 <= d < s.len(),
    ensures
        cycle_rounds(with_default(s, d), m) == with_default(s, (d + m) % (s.len() as int)),
    decreases m,
{
    let n = s.len() as int;
    let x = with_default(s, d);
    if m == 0 {
        lemma_small_mod(d as nat, n as nat);
    } else {
        lemma_nothing_excluded(x);
        lemma_default_pos_unique(x, d);
        let d1 = (d + 1) % n;
        assert(chosen_index(x, Seq::empty()) == d1);
        assert(with_default(x, d1) =~= with_default(s, d1));
        lemma_cycle_rounds_shift(s, d1, (m - 1) as nat);
        // (d1 + (m - 1)) % n == (d + m) % n, both being the sum of the remainders.
        lemma_add_mod_noop(d + 1, m - 1, n);
        lemma_add_mod_noop(d1, m - 1, n);
        lemma_small_mod(d1 as nat, n as nat);
    }
}

/// Cycling with an empty exclusion list visits the devices in list order:
/// from a list whose single default device is at `d`, selecting and
/// committing as many times as there are devices gives back the list that
/// was started from, with the same device default again.
pub proof fn lemma_cycle_closure(all: Seq<AudioDevice>, d: int)
    requires
        0 <= d < all.len(),
        all == with_default(all, d),
    ensures
        cycle_rounds(all, all.len()) == all,
{
    lemma_cycle_rounds_shift(all, d, all.len());
    lemma_mod_add_multiples_vanish(d, all.len() as int);
    lemma_small_mod(d as nat, all.len());
}

/// When the one default device is excluded and some device is included, the
/// first included device is selected, at place 1, and it is not excluded.
pub proof fn lemma_excluded_default_skipped(all: Seq<AudioDevice>, excluded: Seq<String>, k: int)
    requires
        0 <= k < all.len(),
        all[k].is_default,
        forall|i: int| 0 <= i < all.len() && (#[trigger] all[i]).is_default ==> i == k,
        is_excluded(excluded, all[k].id@),
        included_of(all, excluded).len() > 0,
    ensures
        chosen_index(all, excluded) == 0,
        chosen(all, excluded) == included_of(all, excluded)[0],
        !is_excluded(excluded, chosen(all, excluded).id@),
{
    let inc = included_of(all, excluded);
    lemma_included_members(all, excluded);
    assert forall|i: int| 0 <= i < inc.len() implies !(#[trigger] inc[i]).is_default by {
        let j = choose|j: int| 0 <= j < all.len() && all[j] == inc[i];
        assert(!is_excluded(excluded, inc[i].id@));
    }
    lemma_default_pos_bounds(inc);
}

/// Where the exclusion list names every device, selection ignores it and
/// rotates over the whole list; on a non-empty list it still selects a
/// device of that list.
pub proof fn lemma_all_excluded_rotates_all(all: Seq<AudioDevice>, excluded: Seq<String>)
    requires
        forall|i: int| 0 <= i < all.len() ==> is_excluded(excluded, (#[trigger] all[i]).id@),
    ensures
        pool_of(all, excluded) == all,
        chosen_index(all, excluded) == next_index(all),
        all.len() > 0 ==> 0 <= next_index(all) < all.len() && chosen(all, excluded) == all[next_index(all)],
{
    lemma_all_excluded_empty(all, excluded);
    lemma_default_pos_bounds(all);
}

/// After device `k` is committed, an enumeration that marks each device by
/// comparing its id with the new default id reports `with_default(all, k)`,
/// provided the ids are distinct and not empty.
pub proof fn lemma_reenumeration_marks_committed(
    all: Seq<AudioDevice>,
    k: int,
    after: Seq<AudioDevice>,
)
    requires
        0 <= k < all.len(),
        all[k].id@.len() > 0,
        forall|i: int, j: int|
            0 <= i < j < all.len() ==> (#[trigger] all[i]).id@ != (#[trigger] all[j]).id@,
        after.len() == all.len(),
        forall|i: int|
            0 <= i < all.len() ==> (#[trigger] after[i]).id == all[i].id && after[i].name
                == all[i].name && after[i].is_default == marks_default(all[i].id@, all[k].id@),
    ensures
        after == with_default(all, k),
{
    assert forall|i: int| 0 <= i < all.len() implies #[trigger] after[i] == with_default(all, k)[i] by {
        if i < k {
            assert(all[i].id@ != all[k].id@);
        } else if k < i {
            assert(all[k].id@ != all[i].id@);
        }
    }
    assert(after =~= with_default(all, k));
}

} // verus!
