use vstd::prelude::*;

use crate::address::Address;
use crate::poll::copy_bytes;

verus! {

/// Why a call on the badge contract is refused.
#[derive(Clone, Copy, Debug, PartialEq, Eq, Structural)]
pub enum BadgeError {
    AlreadyInitialized,
    BadgeNotFound,
    Overflow,
}

impl BadgeError {
    /// The text with which the contract aborts for this error.
    pub open spec fn spec_message(self) -> Seq<char> {
        match self {
            BadgeError::AlreadyInitialized => "already initialized"@,
            BadgeError::BadgeNotFound => "badge not found"@,
            BadgeError::Overflow => "attempt to add with overflow"@,
        }
    }

    pub fn message(&self) -> (res: &'static str)
        ensures
            res@ == self.spec_message(),
    {
        match self {
            BadgeError::AlreadyInitialized => "already initialized",
            BadgeError::BadgeNotFound => "badge not found",
            BadgeError::Overflow => "attempt to add with overflow",
        }
    }
}

/// A participation badge as the contract stores it.
#[derive(Debug)]
pub struct Badge {
    pub id: u32,
    pub holder: Address,
    pub badge_type: Vec<u8>,
    pub timestamp: u64,
}

/// A badge as plain values.
pub struct BadgeView {
    pub id: u32,
    pub holder: Seq<char>,
    pub badge_type: Seq<u8>,
    pub timestamp: u64,
}

impl View for Badge {
    type V = BadgeView;

    open spec fn view(&self) -> BadgeView {
        BadgeView {
            id: self.id,
            holder: self.holder@,
            badge_type: self.badge_type@,
            timestamp: self.timestamp,
        }
    }
}

impl Clone for Badge {
    fn clone(&self) -> (res: Self)
        ensures
            res@ == self@,
    {
        Badge {
            id: self.id,
            holder: self.holder.clone(),
            badge_type: copy_bytes(&self.badge_type),
            timestamp: self.timestamp,
        }
    }
}

/// What the badge contract publishes when it awards a badge.
#[derive(Debug)]
pub struct BadgeAwarded {
    pub badge_id: u32,
    pub holder: Address,
}

/// One write of a holder's badge count.
struct HolderCount {
    holder: Address,
    count: u32,
}

/// The storage of the badge contract.
///
/// `total` is the counter kept in instance storage, absent until the contract
/// is initialized or its first badge is awarded; `admin` is the administrator
/// that `initialize` records; badge `i` is the record
/// stored under key `i`; `counts` holds the writes of the per-holder counters,
/// oldest first, so that a holder's counter is its latest write; `events` is
/// what the contract has published. The flag the contract keeps for a holder
/// and a badge id is set exactly when the badge with that id is stored with
/// that holder, and neither is ever removed, so it is read off the badges.
pub struct VotingBadge {
    total: Option<u32>,
    admin: Option<Address>,
    badges: Vec<Badge>,
    counts: Vec<HolderCount>,
    events: Vec<BadgeAwarded>,
}

/// The storage of the badge contract as plain values.
pub struct VotingBadgeView {
    pub total: Option<u32>,
    pub admin: Option<Seq<char>>,
    pub badges: Seq<BadgeView>,
    pub counts: Map<Seq<char>, u32>,
    pub events: Seq<BadgeAwarded>,
}

/// The latest count written for `holder` in a log of writes.
pub open spec fn latest(log: Seq<(Seq<char>, u32)>, holder: Seq<char>) -> Option<u32>
    decreases log.len(),
{
    if log.len() == 0 {
        None
    } else if log.last().0 == holder {
        Some(log.last().1)
    } else {
        latest(log.drop_last(), holder)
    }
}

/// The counters that a log of writes leaves.
pub open spec fn counters(log: Seq<(Seq<char>, u32)>) -> Map<Seq<char>, u32> {
    Map::new(|h: Seq<char>| latest(log, h) is Some, |h: Seq<char>| latest(log, h)->Some_0)
}

/// The number of badges in `badges` held by `holder`.
pub open spec fn held(badges: Seq<BadgeView>, holder: Seq<char>) -> nat
    decreases badges.len(),
{
    if badges.len() == 0 {
        0
    } else {
        held(badges.drop_last(), holder) + if badges.last().holder == holder {
            1nat
        } else {
            0nat
        }
    }
}

/// A holder holds no more badges than there are.
pub proof fn lemma_held_bounded(badges: Seq<BadgeView>, holder: Seq<char>)
    ensures
        held(badges, holder) <= badges.len(),
    decreases badges.len(),
{
    if badges.len() > 0 {
        lemma_held_bounded(badges.drop_last(), holder);
    }
}

/// Appending a badge adds one to its holder's number of badges, and nothing to another's.
pub proof fn lemma_held_push(badges: Seq<BadgeView>, b: BadgeView, holder: Seq<char>)
    ensures
        held(badges.push(b), holder) == held(badges, holder) + if b.holder == holder {
            1nat
        } else {
            0nat
        },
{
    assert(badges.push(b).drop_last() =~= badges);
}

/// Appending a write sets the written holder's counter and leaves the others.
pub proof fn lemma_counters_push(log: Seq<(Seq<char>, u32)>, holder: Seq<char>, count: u32)
    ensures
        counters(log.push((holder, count))) == counters(log).insert(holder, count),
{
    assert(log.push((holder, count)).drop_last() =~= log);
    assert(counters(log.push((holder, count))) =~= counters(log).insert(holder, count));
}

impl VotingBadgeView {
    /// The number of badges awarded so far, which is also the id of the next one.
    pub open spec fn total_badges(self) -> u32 {
        match self.total {
            Some(n) => n,
            None => 0,
        }
    }

    /// The counter of `holder`, zero where none was written.
    pub open spec fn holder_count(self, holder: Seq<char>) -> u32 {
        if self.counts.contains_key(holder) {
            self.counts[holder]
        } else {
            0
        }
    }

    /// Whether badge `badge_id` is held by `holder`.
    pub open spec fn has_badge(self, holder: Seq<char>, badge_id: u32) -> bool {
        &&& badge_id < self.badges.len()
        &&& self.badges[badge_id as int].holder == holder
    }

    /// The storage that the contract can reach: badge `i` stored under key `i`
    /// for each `i` below the counter, and each holder's counter equal to the
    /// number of badges it holds.
    pub open spec fn wf(self) -> bool {
        &&& self.badges.len() == self.total_badges()
        &&& forall|i: int| #![trigger self.badges[i]] 0 <= i < self.badges.len() ==> self.badges[i].id == i
        &&& forall|h: Seq<char>| #[trigger] self.holder_count(h) == held(self.badges, h)
    }

    /// What `initialize` does: it sets the counter to zero and records
    /// `admin` as the administrator.
    pub open spec fn initialize(self, admin: Seq<char>) -> Result<VotingBadgeView, BadgeError> {
        if self.total is Some {
            Err(BadgeError::AlreadyInitialized)
        } else {
            Ok(VotingBadgeView { total: Some(0), admin: Some(admin), ..self })
        }
    }

    /// What `award_badge` does; on success, also the new badge's id.
    pub open spec fn award(self, holder: Address, badge_type: Seq<u8>, timestamp: u64) -> Result<
        (VotingBadgeView, u32),
        BadgeError,
    > {
        let id = self.total_badges();
        if id == u32::MAX {
            Err(BadgeError::Overflow)
        } else {
            Ok(
                (
                    VotingBadgeView {
                        total: Some((id + 1) as u32),
                        admin: self.admin,
                        badges: self.badges.push(
                            BadgeView { id, holder: holder@, badge_type, timestamp },
                        ),
                        counts: self.counts.insert(
                            holder@,
                            (self.holder_count(holder@) + 1) as u32,
                        ),
                        events: self.events.push(BadgeAwarded { badge_id: id, holder }),
                    },
                    id,
                ),
            )
        }
    }

    /// What `get_badge` reads.
    pub open spec fn badge(self, badge_id: u32) -> Result<BadgeView, BadgeError> {
        if badge_id < self.badges.len() {
            Ok(self.badges[badge_id as int])
        } else {
            Err(BadgeError::BadgeNotFound)
        }
    }
}

/// `initialize` keeps the storage well formed.
pub proof fn lemma_badge_initialize_keeps_wf(s: VotingBadgeView, admin: Seq<char>)
    requires
        s.wf(),
    ensures
        s.initialize(admin) matches Ok(t) ==> t.wf(),
{
    if let Ok(t) = s.initialize(admin) {
        assert forall|h: Seq<char>| #[trigger] t.holder_count(h) == held(t.badges, h) by {
            assert(s.holder_count(h) == held(s.badges, h));
        }
    }
}

/// `award_badge` keeps the storage well formed.
pub proof fn lemma_award_keeps_wf(s: VotingBadgeView, holder: Address, badge_type: Seq<u8>, timestamp: u64)
    requires
        s.wf(),
    ensures
        s.award(holder, badge_type, timestamp) matches Ok((t, id)) ==> t.wf(),
{
    if let Ok((t, id)) = s.award(holder, badge_type, timestamp) {
        let b = BadgeView { id, holder: holder@, badge_type, timestamp };
        assert(s.holder_count(holder@) == held(s.badges, holder@));
        lemma_held_bounded(s.badges, holder@);
        assert forall|h: Seq<char>| #[trigger] t.holder_count(h) == held(t.badges, h) by {
            lemma_held_push(s.badges, b, h);
            assert(s.holder_count(h) == held(s.badges, h));
        }
        assert forall|i: int| #![trigger t.badges[i]] 0 <= i < t.badges.len() implies t.badges[i].id == i by {
            if i < s.badges.len() {
                assert(t.badges[i] == s.badges[i]);
            }
        }
    }
}

/// The log of counter writes as plain values.
spec fn writes(log: Seq<HolderCount>) -> Seq<(Seq<char>, u32)> {
    log.map_values(|e: HolderCount| (e.holder@, e.count))
}

impl View for VotingBadge {
    type V = VotingBadgeView;

    closed spec fn view(&self) -> VotingBadgeView {
        VotingBadgeView {
            total: self.total,
            admin: match self.admin {
                Some(a) => Some(a@),
                None => None,
            },
            badges: self.badges@.map_values(|b: Badge| b@),
            counts: counters(writes(self.counts@)),
            events: self.events@,
        }
    }
}

/// The latest count written for `holder`, if any.
fn latest_count(log: &Vec<HolderCount>, holder: &Address) -> (res: Option<u32>)
    ensures
        res == latest(writes(log@), holder@),
{
    let ghost w = writes(log@);
    let mut k: usize = log.len();
    assert(w.take(k as int) =~= w);
    while k > 0
        invariant
            k <= log.len(),
            w == writes(log@),
            latest(w, holder@) == latest(w.take(k as int), holder@),
        decreases k,
    {
        assert(w.take(k as int).last() == w[k - 1]);
        if log[k - 1].holder.same_as(holder) {
            return Some(log[k - 1].count);
        }
        assert(w.take(k as int).drop_last() =~= w.take(k - 1));
        k = k - 1;
    }
    None
}

/// What awarding a badge writes and publishes.
#[derive(Debug)]
pub struct Award {
    /// The badge to store under its id.
    pub badge: Badge,
    /// The holder's counter's new value.
    pub holder_count: u32,
    /// The badge counter's new value.
    pub total: u32,
    /// The event to publish.
    pub event: BadgeAwarded,
}

/// Award of a badge of type `badge_type` to `holder` at ledger time
/// `timestamp`, where `total` is the badge counter and `count` the holder's
/// counter as stored: the badge gets the counter's value, zero where it is
/// absent, as its id, and both counters grow by one.
pub fn award_step(total: Option<u32>, count: Option<u32>, holder: Address, badge_type: Vec<u8>, timestamp: u64) -> (res:
    Result<Award, BadgeError>)
    ensures
        ({
            let id = match total {
                Some(n) => n,
                None => 0u32,
            };
            let c = match count {
                Some(n) => n,
                None => 0u32,
            };
            match res {
                Ok(a) => {
                    &&& id < u32::MAX
                    &&& c < u32::MAX
                    &&& a.badge@ == (BadgeView { id, holder: holder@, badge_type: badge_type@, timestamp })
                    &&& a.holder_count == c + 1
                    &&& a.total == id + 1
                    &&& a.event == (BadgeAwarded { badge_id: id, holder })
                },
                Err(e) => e == BadgeError::Overflow && (id == u32::MAX || c == u32::MAX),
            }
        }),
{
    let id = match total {
        Some(n) => n,
        None => 0,
    };
    let c = match count {
        Some(n) => n,
        None => 0,
    };
    if c == u32::MAX || id == u32::MAX {
        return Err(BadgeError::Overflow);
    }
    let announced = holder.clone();
    Ok(
        Award {
            badge: Badge { id, holder, badge_type, timestamp },
            holder_count: c + 1,
            total: id + 1,
            event: BadgeAwarded { badge_id: id, holder: announced },
        },
    )
}

impl VotingBadge {
    /// The storage of a freshly deployed contract: no counter, no badges.
    pub fn new() -> (res: VotingBadge)
        ensures
            res@.total is None,
            res@.admin is None,
            res@.badges == Seq::<BadgeView>::empty(),
            res@.counts == Map::<Seq<char>, u32>::empty(),
            res@.events == Seq::<BadgeAwarded>::empty(),
            res@.wf(),
    {
        let res = VotingBadge { total: None, admin: None, badges: Vec::new(), counts: Vec::new(), events: Vec::new() };
        assert(res@.badges =~= Seq::<BadgeView>::empty());
        assert(res@.counts =~= Map::<Seq<char>, u32>::empty());
        assert forall|h: Seq<char>| #[trigger] res@.holder_count(h) == held(res@.badges, h) by {
            assert(!res@.counts.contains_key(h));
        }
        res
    }

    /// Sets the badge counter to zero and records `admin` as the
    /// administrator; refused once the counter exists.
    pub fn initialize(&mut self, admin: Address) -> (res: Result<(), BadgeError>)
        requires
            old(self)@.wf(),
        ensures
            final(self)@.wf(),
            match (res, old(self)@.initialize(admin@)) {
                (Ok(()), Ok(next)) => final(self)@ == next,
                (Err(e), Err(f)) => e == f && final(self)@ == old(self)@,
                _ => false,
            },
    {
        if self.total.is_some() {
            return Err(BadgeError::AlreadyInitialized);
        }
        let ghost spec_admin = admin@;
        self.total = Some(0);
        self.admin = Some(admin);
        proof {
            lemma_badge_initialize_keeps_wf(old(self)@, spec_admin);
            assert(self@.badges =~= old(self)@.badges);
        }
        Ok(())
    }

    /// The administrator recorded by `initialize`, if any.
    pub fn get_admin(&self) -> (res: Option<Address>)
        ensures
            match res {
                Some(a) => self@.admin == Some(a@),
                None => self@.admin is None,
            },
    {
        match &self.admin {
            Some(a) => Some(a.clone()),
            None => None,
        }
    }

    /// Awards a badge of type `badge_type` to `holder` at ledger time
    /// `timestamp`, and returns its id: the number of badges awarded before it.
    pub fn award_badge(&mut self, holder: Address, badge_type: Vec<u8>, timestamp: u64) -> (res: Result<
        u32,
        BadgeError,
    >)
        requires
            old(self)@.wf(),
        ensures
            final(self)@.wf(),
            match (res, old(self)@.award(holder, badge_type@, timestamp)) {
                (Ok(id), Ok((next, new_id))) => id == new_id && final(self)@ == next,
                (Err(e), Err(f)) => e == f && final(self)@ == old(self)@,
                _ => false,
            },
    {
        let ghost old_view = self@;
        let ghost spec_holder = holder;
        let ghost spec_type = badge_type@;
        let current = latest_count(&self.counts, &holder);
        proof {
            assert(old_view.holder_count(holder@) == match current {
                Some(c) => c,
                None => 0u32,
            });
            assert(old_view.holder_count(holder@) == held(old_view.badges, holder@));
            lemma_held_bounded(old_view.badges, holder@);
        }
        let counted = holder.clone();
        let award = match award_step(self.total, current, holder, badge_type, timestamp) {
            Ok(a) => a,
            Err(e) => {
                return Err(e);
            },
        };
        let id = award.badge.id;
        let new_count = award.holder_count;
        self.badges.push(award.badge);
        self.counts.push(HolderCount { holder: counted, count: new_count });
        self.total = Some(award.total);
        self.events.push(award.event);
        proof {
            let (t, tid) = old_view.award(spec_holder, spec_type, timestamp)->Ok_0;
            assert(self@.badges =~= t.badges);
            assert(writes(self.counts@) =~= writes(old(self).counts@).push((spec_holder@, new_count)));
            lemma_counters_push(writes(old(self).counts@), spec_holder@, new_count);
            assert(self@.counts =~= t.counts);
            assert(self@.events =~= t.events);
            lemma_award_keeps_wf(old_view, spec_holder, spec_type, timestamp);
        }
        Ok(id)
    }

    /// The badge stored under `badge_id`.
    pub fn get_badge(&self, badge_id: u32) -> (res: Result<Badge, BadgeError>)
        requires
            self@.wf(),
        ensures
            match (res, self@.badge(badge_id)) {
                (Ok(b), Ok(c)) => b@ == c,
                (Err(e), Err(f)) => e == f,
                _ => false,
            },
    {
        let i = badge_id as usize;
        if i >= self.badges.len() {
            return Err(BadgeError::BadgeNotFound);
        }
        Ok(self.badges[i].clone())
    }

    /// The number of badges awarded to `holder`.
    pub fn get_holder_count(&self, holder: &Address) -> (res: u32)
        requires
            self@.wf(),
        ensures
            res == self@.holder_count(holder@),
    {
        match latest_count(&self.counts, holder) {
            Some(c) => c,
            None => 0,
        }
    }

    /// Whether badge `badge_id` is held by `holder`.
    pub fn has_badge(&self, holder: &Address, badge_id: u32) -> (res: bool)
        requires
            self@.wf(),
        ensures
            res == self@.has_badge(holder@, badge_id),
    {
        let i = badge_id as usize;
        if i >= self.badges.len() {
            return false;
        }
        self.badges[i].holder.same_as(holder)
    }

    /// The number of badges awarded so far.
    pub fn get_total_badges(&self) -> (res: u32)
        ensures
            res == self@.total_badges(),
    {
        match self.total {
            Some(n) => n,
            None => 0,
        }
    }

    /// What the contract has published, oldest first.
    pub fn events(&self) -> (res: &Vec<BadgeAwarded>)
        ensures
            res@ == self@.events,
    {
        &self.events
    }
}

} // verus!
