//! The discovery protocol: controls are enumerated one request at a time by
//! advancing the driver's cursor, and each menu control's entries are looked
//! up index by index.
use vstd::prelude::*;

use crate::control::{ControlType, Description, MenuItem, RawControl, RawMenuItem, name_from_bytes};
use crate::error::DeviceError;
use crate::sys::{NEXT_COMPOUND, NEXT_CTRL, EINVAL_CODE};
use vstd::arithmetic::div_mod::{
    lemma_div_multiples_vanish_fancy, lemma_fundamental_div_mod, lemma_mod_pos_bound,
};

verus! {

/// The reported step coerced to an unsigned machine word. A step of zero is
/// taken as one so that the enumeration always advances. A negative step
/// coerces to a word larger than any range of 32-bit bounds, so only the
/// minimum is looked up: 2^32 stands for it, which has that effect.
pub open spec fn unsigned_step(step: i32) -> int {
    if step == 0 {
        1
    } else if step > 0 {
        step as int
    } else {
        0x1_0000_0000
    }
}

/// The menu index sent for candidate `c`: its 32-bit two's-complement bits,
/// as the protocol's unsigned index field holds them.
pub open spec fn menu_index(c: int) -> u32 {
    if c < 0 {
        (c + 0x1_0000_0000) as u32
    } else {
        c as u32
    }
}

/// The candidate that the menu index `u` stands for.
pub open spec fn index_value(u: u32) -> int {
    if u >= 0x8000_0000 {
        u - 0x1_0000_0000
    } else {
        u as int
    }
}

proof fn lemma_index_round_trip(c: int)
    requires
        -0x8000_0000 <= c < 0x8000_0000,
    ensures
        index_value(menu_index(c)) == c,
{
}

fn index_of(c: i64) -> (r: u32)
    requires
        -0x8000_0000 <= c < 0x8000_0000,
    ensures
        r == menu_index(c as int),
{
    if c < 0 {
        (c + 0x1_0000_0000) as u32
    } else {
        c as u32
    }
}

/// How many candidate indices the range [min, max] holds at step `s`.
pub open spec fn candidate_count(min: int, max: int, s: int) -> int {
    if min <= max {
        (max - min) / s + 1
    } else {
        0
    }
}

/// The candidate menu indices: min, min + s, ... up to max, with s the
/// unsigned step.
pub open spec fn menu_candidates(min: i32, max: i32, step: i32) -> Seq<int> {
    let s = unsigned_step(step);
    Seq::new(candidate_count(min as int, max as int, s) as nat, |k: int| min + k * s)
}

/// The (index, item) pairs that the lookups of `cands` produced, in order,
/// where `replies[k]` is the outcome of the lookup of `cands[k]` and a failed
/// lookup (`None`) is skipped.
pub open spec fn resolved(cands: Seq<int>, replies: Seq<Option<MenuItem>>) -> Seq<(u32, MenuItem)>
    decreases replies.len(),
{
    if replies.len() == 0 {
        Seq::empty()
    } else {
        let k = replies.len() - 1;
        let prev = resolved(cands, replies.drop_last());
        match replies.last() {
            Some(item) => prev.push((menu_index(cands[k]), item)),
            None => prev,
        }
    }
}

proof fn lemma_below_count(min: int, max: int, s: int, k: int)
    requires
        s >= 1,
        k >= 0,
    ensures
        k < candidate_count(min, max, s) <==> min + k * s <= max,
{
    if min <= max {
        let d = max - min;
        let q = d / s;
        lemma_fundamental_div_mod(d, s);
        lemma_mod_pos_bound(d, s);
        if k <= q {
            assert(k * s <= q * s) by (nonlinear_arith)
                requires k <= q, s >= 1;
            assert(q * s == s * q) by (nonlinear_arith);
        } else {
            assert(k * s >= (q + 1) * s) by (nonlinear_arith)
                requires k >= q + 1, s >= 1;
            assert((q + 1) * s == s * q + s) by (nonlinear_arith);
        }
    } else {
        assert(k * s >= 0) by (nonlinear_arith)
            requires k >= 0, s >= 1;
    }
}

/// For a menu whose range [min, max] the unsigned step s divides, the lookup
/// issues ceil((max - min) / s) + 1 candidate lookups.
pub proof fn lemma_menu_lookup_count(min: i32, max: i32, step: i32)
    requires
        min <= max,
        (max - min) % unsigned_step(step) == 0,
    ensures
        menu_candidates(min, max, step).len() == (max - min + unsigned_step(step) - 1)
            / unsigned_step(step) + 1,
{
    let s = unsigned_step(step);
    let d = max - min;
    lemma_fundamental_div_mod(d, s);
    lemma_div_multiples_vanish_fancy(d / s, s - 1, s);
    assert(d + s - 1 == s * (d / s) + (s - 1));
}

proof fn lemma_candidate(min: i32, max: i32, step: i32, k: int)
    requires
        0 <= k < menu_candidates(min, max, step).len(),
    ensures
        menu_candidates(min, max, step)[k] == min + k * unsigned_step(step),
        min <= menu_candidates(min, max, step)[k] <= max,
        (menu_candidates(min, max, step)[k] - min) / unsigned_step(step) == k,
{
    let s = unsigned_step(step);
    lemma_below_count(min as int, max as int, s, k);
    assert(k * s >= 0) by (nonlinear_arith)
        requires k >= 0, s >= 1;
    lemma_div_multiples_vanish_fancy(k, 0, s);
    assert(s * k + 0 == k * s) by (nonlinear_arith);
}

/// What a menu lookup yields, for any outcome of each lookup: `replies[k]`
/// being the outcome for the k-th candidate, each entry is a successful
/// lookup, tagged with its candidate's index; entries come in strictly
/// ascending candidate order (so in ascending index order when the range
/// starts at zero or above); no failed candidate's index appears; and every
/// successful lookup appears.
pub proof fn lemma_menu_items(min: i32, max: i32, step: i32, replies: Seq<Option<MenuItem>>)
    requires
        replies.len() <= menu_candidates(min, max, step).len(),
    ensures
        ({
            let cands = menu_candidates(min, max, step);
            let s = unsigned_step(step);
            let items = resolved(cands, replies);
            &&& forall|i: int, j: int|
                #![trigger items[i], items[j]]
                0 <= i < j < items.len() ==> index_value(items[i].0) < index_value(items[j].0)
            &&& 0 <= min ==> forall|i: int, j: int|
                #![trigger items[i], items[j]]
                0 <= i < j < items.len() ==> items[i].0 < items[j].0
            &&& forall|j: int|
                #![trigger items[j]]
                0 <= j < items.len() ==> {
                    let k = (index_value(items[j].0) - min) / s;
                    &&& 0 <= k < replies.len()
                    &&& cands[k] == index_value(items[j].0)
                    &&& replies[k] == Some(items[j].1)
                }
            &&& forall|k: int, j: int|
                #![trigger replies[k], items[j]]
                0 <= k < replies.len() && replies[k].is_none() && 0 <= j < items.len()
                    ==> items[j].0 != menu_index(cands[k])
            &&& forall|k: int|
                #![trigger replies[k]]
                0 <= k < replies.len() && replies[k].is_some() ==> exists|j: int|
                    0 <= j < items.len() && #[trigger] items[j] == (
                        menu_index(cands[k]),
                        replies[k]->Some_0,
                    )
            &&& forall|j: int|
                #![trigger items[j]]
                0 <= j < items.len() ==> index_value(items[j].0) <= min + (replies.len() - 1) * s
        }),
    decreases replies.len(),
{
    let cands = menu_candidates(min, max, step);
    let s = unsigned_step(step);
    if replies.len() > 0 {
        let n = replies.len() - 1;
        let prev = replies.drop_last();
        lemma_menu_items(min, max, step, prev);
        let old_items = resolved(cands, prev);
        let items = resolved(cands, replies);
        lemma_candidate(min, max, step, n);
        lemma_index_round_trip(cands[n]);
        assert(min + (n - 1) * s + s == min + n * s) by (nonlinear_arith);
        assert forall|k: int| 0 <= k < n implies cands[k] < cands[n] by {
            lemma_candidate(min, max, step, k);
            assert(k * s < n * s) by (nonlinear_arith)
                requires k < n, s >= 1;
        }
        assert forall|k: int| 0 <= k < n implies #[trigger] replies[k] == prev[k] by {}
        assert forall|k: int, j: int|
            #![trigger replies[k], items[j]]
            0 <= k < replies.len() && replies[k].is_none() && 0 <= j < items.len()
                implies items[j].0 != menu_index(cands[k]) by {
            lemma_candidate(min, max, step, k);
            lemma_index_round_trip(cands[k]);
            if j < old_items.len() {
                assert(items[j] == old_items[j]);
                if k == n {
                    assert(index_value(old_items[j].0) < cands[n]);
                } else {
                    assert(prev[k].is_none());
                }
            } else {
                assert(k < n);
                assert(cands[k] < cands[n]);
            }
        }
        assert forall|k: int|
            #![trigger replies[k]]
            0 <= k < replies.len() && replies[k].is_some() implies exists|j: int|
                0 <= j < items.len() && #[trigger] items[j] == (
                    menu_index(cands[k]),
                    replies[k]->Some_0,
                ) by {
            if k == n {
                assert(items[items.len() - 1] == (menu_index(cands[k]), replies[k]->Some_0));
            } else {
                assert(prev[k].is_some());
                let j = choose|j: int|
                    0 <= j < old_items.len() && #[trigger] old_items[j] == (
                        menu_index(cands[k]),
                        prev[k]->Some_0,
                    );
                assert(items[j] == old_items[j]);
            }
        }
        assert forall|j: int|
            #![trigger items[j]]
            0 <= j < items.len() implies index_value(items[j].0) <= min + n * s by {
            if j < old_items.len() {
                assert(items[j] == old_items[j]);
            }
        }
    }
}

/// The lookup of one control's menu entries.
pub struct MenuScan {
    control: Description,
    is_menu: bool,
    next: i64,
    max: i64,
    step: i64,
    items: Vec<(u32, MenuItem)>,
    issued: Ghost<nat>,
    replies: Ghost<Seq<Option<MenuItem>>>,
}

impl MenuScan {
    /// The candidate indices this scan looks up.
    pub open spec fn candidates(self) -> Seq<int> {
        if self.control().typ.spec_is_menu() {
            menu_candidates(self.control().minimum, self.control().maximum, self.control().step)
        } else {
            Seq::empty()
        }
    }

    /// The control being described; its entries are not filled in yet.
    pub closed spec fn control(self) -> Description {
        self.control
    }

    /// The outcomes of the lookups issued so far, in order.
    pub closed spec fn replies(self) -> Seq<Option<MenuItem>> {
        self.replies@
    }

    pub closed spec fn wf(self) -> bool {
        let s = unsigned_step(self.control.step);
        &&& self.control.items.is_none()
        &&& self.is_menu == self.control.typ.spec_is_menu()
        &&& self.step == s
        &&& self.max == self.control.maximum
        &&& self.replies@.len() == self.issued@
        &&& self.issued@ <= self.candidates().len()
        &&& self.items@ == resolved(self.candidates(), self.replies@)
        &&& self.is_menu ==> self.next == self.control.minimum + self.issued@ * s
        &&& !self.is_menu ==> self.next > self.max
    }

    /// Starts describing the reported control `raw`.
    pub fn new(raw: &RawControl) -> (r: MenuScan)
        ensures
            r.wf(),
            r.control().describes(*raw),
            r.control().items.is_none(),
            r.replies().len() == 0,
    {
        let typ = ControlType::from_raw(raw.typ);
        let control = Description {
            id: raw.id,
            typ,
            name: name_from_bytes(raw.name.as_slice()),
            minimum: raw.minimum,
            maximum: raw.maximum,
            step: raw.step,
            default: raw.default,
            flags: raw.flags,
            items: None,
        };
        let is_menu = typ.is_menu();
        let step: i64 = if raw.step == 0 {
            1
        } else if raw.step > 0 {
            raw.step as i64
        } else {
            0x1_0000_0000
        };
        let next: i64 = if is_menu { raw.minimum as i64 } else { raw.maximum as i64 + 1 };
        let r = MenuScan {
            control,
            is_menu,
            next,
            max: raw.maximum as i64,
            step,
            items: Vec::new(),
            issued: Ghost(0),
            replies: Ghost(Seq::empty()),
        };
        assert(r.items@ =~= resolved(r.candidates(), Seq::empty()));
        r
    }

    /// The menu index to look up next, or `None` once every candidate has
    /// been looked up.
    pub fn next_index(&self) -> (r: Option<u32>)
        requires
            self.wf(),
        ensures
            self.replies().len() < self.candidates().len() ==> r == Some(
                menu_index(self.candidates()[self.replies().len() as int]),
            ),
            self.replies().len() >= self.candidates().len() ==> r.is_none(),
    {
        proof {
            if self.is_menu {
                lemma_below_count(
                    self.control.minimum as int,
                    self.control.maximum as int,
                    self.step as int,
                    self.issued@ as int,
                );
            }
        }
        if self.next <= self.max {
            Some(index_of(self.next))
        } else {
            None
        }
    }

    /// Records the outcome of looking up the index that `next_index` gave:
    /// the entry, or `None` where the lookup failed. A failed lookup is
    /// skipped, since drivers may advertise a wider range than they fill.
    pub fn record(&mut self, reply: Option<RawMenuItem>)
        requires
            old(self).wf(),
            old(self).replies().len() < old(self).candidates().len(),
        ensures
            final(self).wf(),
            final(self).control() == old(self).control(),
            final(self).replies().len() == old(self).replies().len() + 1,
            final(self).replies().drop_last() == old(self).replies(),
            match reply {
                Some(raw) => (final(self).replies().last() matches Some(item) && item.decodes_to(
                    old(self).control().typ,
                    raw,
                )),
                None => final(self).replies().last().is_none(),
            },
    {
        proof {
            lemma_below_count(
                self.control.minimum as int,
                self.control.maximum as int,
                self.step as int,
                self.issued@ as int,
            );
        }
        let ghost k = self.issued@ as int;
        let ghost old_replies = self.replies@;
        let ghost cands = self.candidates();
        assert(self.is_menu);
        let index = index_of(self.next);
        assert(index == menu_index(cands[k]));
        match reply {
            Some(raw) => {
                let item = MenuItem::decode(self.control.typ, &raw);
                let ghost it = item;
                self.items.push((index, item));
                self.replies = Ghost(old_replies.push(Some(it)));
            },
            None => {
                self.replies = Ghost(old_replies.push(None));
            },
        }
        self.issued = Ghost((k + 1) as nat);
        self.next = self.next + self.step;
        assert(self.replies@.drop_last() =~= old_replies);
        assert(self.next == self.control.minimum + self.issued@ * self.step) by (nonlinear_arith)
            requires
                self.next == self.control.minimum + k * self.step + self.step,
                self.issued@ == k + 1;
    }

    /// The finished description; menu entries are filled in for menu types.
    pub fn finish(self) -> (r: Description)
        requires
            self.wf(),
            self.replies().len() == self.candidates().len(),
        ensures
            r.wf(),
            r.id == self.control().id,
            r.typ == self.control().typ,
            r.name == self.control().name,
            r.minimum == self.control().minimum,
            r.maximum == self.control().maximum,
            r.step == self.control().step,
            r.default == self.control().default,
            r.flags == self.control().flags,
            self.control().typ.spec_is_menu() ==> (r.items matches Some(v) && v@ == resolved(
                self.candidates(),
                self.replies(),
            )),
    {
        let mut control = self.control;
        if self.is_menu {
            control.items = Some(self.items);
        }
        control
    }
}

/// What ending the enumeration with a failed request of error code `code`
/// yields, after the controls `found`: the driver signals the end of the list
/// with "invalid input", which counts as exhaustion once at least one control
/// was found; any other failure, or that one before any control, is an error.
pub open spec fn discovery_outcome(found: Seq<Description>, code: i32) -> Result<Seq<Description>, DeviceError> {
    if found.len() > 0 && code == EINVAL_CODE {
        Ok(found)
    } else {
        Err(DeviceError::Os(code))
    }
}

/// The enumeration of a device's controls.
///
/// Each step issues one "describe next control" request (`request_id`) and
/// then hands over its outcome: a control (`accept`), or the failure that
/// ends the enumeration (`finish`).
pub struct ControlQuery {
    controls: Vec<Description>,
    cursor: u32,
    pending: bool,
    requests: Ghost<nat>,
}

impl View for ControlQuery {
    type V = Seq<Description>;

    closed spec fn view(&self) -> Seq<Description> {
        self.controls@
    }
}

impl ControlQuery {
    /// The id of the last control found, from which the driver advances.
    pub closed spec fn cursor(self) -> u32 {
        self.cursor
    }

    /// Whether a request was issued whose outcome has not been handed over.
    pub closed spec fn pending(self) -> bool {
        self.pending
    }

    /// How many requests were issued so far.
    pub closed spec fn requests(self) -> nat {
        self.requests@
    }

    /// Every control found so far is well formed, and each came from one
    /// request, the pending one aside.
    pub open spec fn wf(self) -> bool {
        &&& forall|i: int| 0 <= i < self@.len() ==> (#[trigger] self@[i]).wf()
        &&& self.requests() == self@.len() + if self.pending() { 1nat } else { 0nat }
    }

    /// Starts an enumeration with no control found.
    pub fn new() -> (r: ControlQuery)
        ensures
            r@.len() == 0,
            r.cursor() == 0,
            !r.pending(),
            r.requests() == 0,
            r.wf(),
    {
        ControlQuery { controls: Vec::new(), cursor: 0, pending: false, requests: Ghost(0) }
    }

    /// The id to send in the next "describe next control" request: the
    /// cursor, with the flags that ask for the next control, compound ones
    /// included.
    pub fn request_id(&mut self) -> (r: u32)
        requires
            old(self).wf(),
            !old(self).pending(),
        ensures
            final(self).wf(),
            final(self).pending(),
            final(self).requests() == old(self).requests() + 1,
            final(self)@ == old(self)@,
            final(self).cursor() == old(self).cursor(),
            r == old(self).cursor() | NEXT_CTRL | NEXT_COMPOUND,
    {
        self.pending = true;
        self.requests = Ghost(self.requests@ + 1);
        self.cursor | NEXT_CTRL | NEXT_COMPOUND
    }

    /// Starts describing a control that the driver reported.
    pub fn describe(&self, raw: &RawControl) -> (r: MenuScan)
        ensures
            r.wf(),
            r.control().describes(*raw),
            r.replies().len() == 0,
    {
        MenuScan::new(raw)
    }

    /// Adds the described control that the pending request found; the
    /// driver's cursor moves on to its id.
    pub fn accept(&mut self, control: Description)
        requires
            old(self).wf(),
            old(self).pending(),
            control.wf(),
        ensures
            final(self).wf(),
            !final(self).pending(),
            final(self).requests() == old(self).requests(),
            final(self)@ == old(self)@.push(control),
            final(self).cursor() == control.id,
    {
        let id = control.id;
        self.controls.push(control);
        self.cursor = id;
        self.pending = false;
        assert forall|i: int| 0 <= i < self@.len() implies (#[trigger] self@[i]).wf() by {
            if i < self@.len() - 1 {
                assert(self@[i] == old(self)@[i]);
            }
        }
    }

    /// Ends the enumeration at the pending request, which failed with error
    /// code `code`. The enumeration is consumed: no request follows, and the
    /// requests issued are one per control found plus this last one.
    pub fn finish(self, code: i32) -> (r: Result<Vec<Description>, DeviceError>)
        requires
            self.wf(),
            self.pending(),
        ensures
            self.requests() == self@.len() + 1,
            match (r, discovery_outcome(self@, code)) {
                (Ok(v), Ok(s)) => v@ == s,
                (Err(e), Err(f)) => e == f,
                _ => false,
            },
    {
        let e = DeviceError::Os(code);
        if self.controls.len() == 0 || !e.is_invalid_input() {
            Err(e)
        } else {
            Ok(self.controls)
        }
    }
}


/// Discovery of controls ends without error at an "invalid input" failure
/// once at least one control was found, yielding exactly the controls found,
/// in the order reported; the same failure before any control is an error,
/// and so is any other failure.
pub proof fn lemma_discovery_termination(found: Seq<Description>, code: i32)
    ensures
        found.len() > 0 && code == EINVAL_CODE ==> discovery_outcome(found, code) == Ok::<
            Seq<Description>,
            DeviceError,
        >(found),
        found.len() == 0 ==> discovery_outcome(found, code) == Err::<Seq<Description>, DeviceError>(
            DeviceError::Os(code),
        ),
        code != EINVAL_CODE ==> discovery_outcome(found, code) == Err::<
            Seq<Description>,
            DeviceError,
        >(DeviceError::Os(code)),
{
}

} // verus!
