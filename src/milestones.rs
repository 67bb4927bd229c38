//! Milestones: what differs between the declared milestones and those a
//! repository has, which open issues move to a replacing milestone, and the
//! requests that make them agree.
use vstd::prelude::*;
use crate::config::{copy_opt, opt_eq, opt_text, Milestone, Repo};

verus! {

/// A milestone as the tracker reports it; `due` is a date `YYYY-MM-DD`.
pub struct RemoteMilestone {
    pub number: i64,
    pub title: String,
    pub description: Option<String>,
    pub state: Option<String>,
    pub due: Option<String>,
    pub open_issues: Option<i64>,
}

/// An issue to move to another milestone.
#[derive(Debug, Clone, Copy, PartialEq, Eq, Structural)]
pub struct Issue {
    pub number: u64,
}

/// Why milestones cannot be reconciled.
pub enum Error {
    /// A declared milestone replaces one of this title, which the repository
    /// does not have.
    ReplacementTargetNotFound(String),
}

/// Why a declared milestone needs work.
pub enum MilestoneDiscrepancy {
    /// The repository has no milestone of that title: the wanted milestone.
    Missing(Milestone),
    /// The repository's milestone differs, or issues must move to it: the
    /// wanted milestone, the number of the current one, and the current one.
    Changed(Milestone, i64, Milestone),
}

/// A discrepancy, with the repository it was found in and the open issues to
/// move to the milestone.
pub struct MilestoneUpdate {
    pub org: String,
    pub repo: String,
    pub why: MilestoneDiscrepancy,
    pub issues: Vec<Issue>,
}

/// The milestone of a listing that a title selects: the last one with that
/// title.
pub open spec fn find_milestone(current: Seq<RemoteMilestone>, title: Seq<char>) -> Option<
    RemoteMilestone,
>
    decreases current.len(),
{
    if current.len() == 0 {
        None
    } else if current.last().title@ == title {
        Some(current.last())
    } else {
        find_milestone(current.drop_last(), title)
    }
}

/// The number of the milestone whose open issues move to `want`, if any; the
/// title of the replaced milestone when the repository lacks it.
pub open spec fn migration_source_of(want: Milestone, current: Seq<RemoteMilestone>) -> Result<
    Option<i64>,
    Seq<char>,
> {
    match want.replaces {
        None => Ok(None),
        Some(t) => match find_milestone(current, t@) {
            None => Err(t@),
            Some(old) => if old.open_issues matches Some(n) && n > 0 {
                Ok(Some(old.number))
            } else {
                Ok(None)
            },
        },
    }
}

/// A remote milestone in the shape of a declared one.
pub open spec fn as_declared(cur: RemoteMilestone) -> Milestone {
    Milestone {
        title: cur.title,
        description: cur.description,
        state: cur.state,
        due: cur.due,
        replaces: None,
    }
}

pub open spec fn milestone_in_sync(want: Milestone, cur: RemoteMilestone) -> bool {
    &&& opt_text(cur.description) == opt_text(want.description)
    &&& opt_text(cur.due) == opt_text(want.due)
    &&& opt_text(cur.state) == opt_text(want.state)
}

/// The discrepancy of one declared milestone, given the open issues that must
/// move to it.
pub open spec fn milestone_discrepancy(
    want: Milestone,
    current: Seq<RemoteMilestone>,
    issues: Seq<Issue>,
) -> Option<MilestoneDiscrepancy> {
    match find_milestone(current, want.title@) {
        None => Some(MilestoneDiscrepancy::Missing(want)),
        Some(cur) => if milestone_in_sync(want, cur) && issues.len() == 0 {
            None
        } else {
            Some(MilestoneDiscrepancy::Changed(want, cur.number, as_declared(cur)))
        },
    }
}

/// The discrepancies of the declared milestones, each with the issues to move,
/// in declared order.
pub open spec fn milestone_discrepancies(
    desired: Seq<Milestone>,
    current: Seq<RemoteMilestone>,
    issues: Seq<Vec<Issue>>,
) -> Seq<(MilestoneDiscrepancy, Seq<Issue>)>
    decreases desired.len(),
{
    if desired.len() == 0 || issues.len() == 0 {
        Seq::empty()
    } else {
        let rest = milestone_discrepancies(desired.drop_last(), current, issues.drop_last());
        match milestone_discrepancy(desired.last(), current, issues.last()@) {
            Some(d) => rest.push((d, issues.last()@)),
            None => rest,
        }
    }
}

/// The position of the milestone that a title selects in a listing.
pub fn find_milestone_index(current: &Vec<RemoteMilestone>, title: &String) -> (r: Option<usize>)
    ensures
        match r {
            Some(i) => i < current@.len() && find_milestone(current@, title@) == Some(
                current@[i as int],
            ),
            None => find_milestone(current@, title@) is None,
        },
{
    let mut i: usize = current.len();
    assert(current@.take(i as int) =~= current@);
    while i > 0
        invariant
            i <= current@.len(),
            find_milestone(current@, title@) == find_milestone(current@.take(i as int), title@),
        decreases i,
    {
        assert(current@.take(i as int).drop_last() =~= current@.take(i - 1));
        if current[i - 1].title == *title {
            return Some(i - 1);
        }
        i = i - 1;
    }
    None
}

/// The number of the milestone whose open issues must move to `want`: the
/// milestone it replaces, when that one has open issues.
pub fn migration_source(want: &Milestone, current: &Vec<RemoteMilestone>) -> (r: Result<
    Option<i64>,
    Error,
>)
    ensures
        match (r, migration_source_of(*want, current@)) {
            (Ok(a), Ok(b)) => a == b,
            (Err(Error::ReplacementTargetNotFound(t)), Err(u)) => t@ == u,
            _ => false,
        },
{
    match &want.replaces {
        None => Ok(None),
        Some(t) => match find_milestone_index(current, t) {
            None => Err(Error::ReplacementTargetNotFound(t.clone())),
            Some(i) => {
                let old = &current[i];
                match old.open_issues {
                    Some(n) => if n > 0 {
                        Ok(Some(old.number))
                    } else {
                        Ok(None)
                    },
                    None => Ok(None),
                }
            },
        },
    }
}

/// The migration sources of all declared milestones, in declared order; the
/// first replaced milestone that the repository lacks is an error.
pub fn migration_sources(desired: &Vec<Milestone>, current: &Vec<RemoteMilestone>) -> (r: Result<
    Vec<Option<i64>>,
    Error,
>)
    ensures
        r is Ok <==> forall|i: int|
            0 <= i < desired@.len() ==> #[trigger] migration_source_of(desired@[i], current@) is Ok,
        r matches Ok(v) ==> v@.len() == desired@.len() && forall|i: int|
            0 <= i < desired@.len() ==> migration_source_of(desired@[i], current@) == Ok::<
                Option<i64>,
                Seq<char>,
            >(#[trigger] v@[i]),
        r matches Err(Error::ReplacementTargetNotFound(t)) ==> exists|i: int|
            0 <= i < desired@.len() && #[trigger] migration_source_of(desired@[i], current@)
                == Err::<Option<i64>, Seq<char>>(t@) && forall|j: int|
                0 <= j < i ==> #[trigger] migration_source_of(desired@[j], current@) is Ok,
{
    let mut v: Vec<Option<i64>> = Vec::new();
    let mut k: usize = 0;
    while k < desired.len()
        invariant
            k <= desired@.len(),
            v@.len() == k,
            forall|i: int|
                0 <= i < k ==> migration_source_of(desired@[i], current@) == Ok::<
                    Option<i64>,
                    Seq<char>,
                >(#[trigger] v@[i]),
        decreases desired@.len() - k,
    {
        match migration_source(&desired[k], current) {
            Ok(s) => v.push(s),
            Err(e) => {
                assert(migration_source_of(desired@[k as int], current@) is Err);
                assert(!(migration_source_of(desired@[k as int], current@) is Ok));
                assert(forall|j: int|
                    0 <= j < k ==> #[trigger] migration_source_of(desired@[j], current@) == Ok::<
                        Option<i64>,
                        Seq<char>,
                    >(v@[j]));
                return Err(e);
            },
        }
        k = k + 1;
    }
    assert forall|i: int| 0 <= i < desired@.len() implies #[trigger] migration_source_of(
        desired@[i],
        current@,
    ) is Ok by {
        assert(migration_source_of(desired@[i], current@) == Ok::<Option<i64>, Seq<char>>(v@[i]));
    }
    Ok(v)
}

fn copy_issues(issues: &Vec<Issue>) -> (r: Vec<Issue>)
    ensures
        r@ == issues@,
{
    let mut r: Vec<Issue> = Vec::new();
    let mut i: usize = 0;
    while i < issues.len()
        invariant
            i <= issues@.len(),
            r@ == issues@.take(i as int),
        decreases issues@.len() - i,
    {
        r.push(issues[i]);
        i = i + 1;
        assert(r@ =~= issues@.take(i as int));
    }
    assert(issues@.take(i as int) =~= issues@);
    r
}

/// The discrepancy of one declared milestone, given the open issues that must
/// move to it: issues to move always make one.
pub fn diff_milestone(want: &Milestone, current: &Vec<RemoteMilestone>, issues: &Vec<Issue>) -> (r:
    Option<MilestoneDiscrepancy>)
    ensures
        r == milestone_discrepancy(*want, current@, issues@),
{
    match find_milestone_index(current, &want.title) {
        None => Some(MilestoneDiscrepancy::Missing(want.copy())),
        Some(i) => {
            let cur = &current[i];
            if opt_eq(&cur.description, &want.description) && opt_eq(&cur.due, &want.due) && opt_eq(
                &cur.state,
                &want.state,
            ) && issues.len() == 0 {
                None
            } else {
                Some(
                    MilestoneDiscrepancy::Changed(
                        want.copy(),
                        cur.number,
                        Milestone {
                            title: cur.title.clone(),
                            description: copy_opt(&cur.description),
                            state: copy_opt(&cur.state),
                            due: copy_opt(&cur.due),
                            replaces: None,
                        },
                    ),
                )
            }
        },
    }
}

/// The discrepancies of the declared milestones against the milestones that a
/// repository has, in declared order; `issues` holds, for each declared
/// milestone, the open issues that must move to it.
pub fn diff_milestones(
    repo: &Repo,
    desired: &Vec<Milestone>,
    current: &Vec<RemoteMilestone>,
    issues: &Vec<Vec<Issue>>,
) -> (r: Vec<MilestoneUpdate>)
    requires
        issues@.len() == desired@.len(),
    ensures
        r@.len() == milestone_discrepancies(desired@, current@, issues@).len(),
        forall|i: int|
            0 <= i < r@.len() ==> {
                &&& (#[trigger] r@[i].why, r@[i].issues@) == milestone_discrepancies(
                    desired@,
                    current@,
                    issues@,
                )[i]
                &&& r@[i].org == repo.org
                &&& r@[i].repo == repo.repo
            },
{
    let mut r: Vec<MilestoneUpdate> = Vec::new();
    let mut k: usize = 0;
    while k < desired.len()
        invariant
            k <= desired@.len(),
            issues@.len() == desired@.len(),
            r@.len() == milestone_discrepancies(
                desired@.take(k as int),
                current@,
                issues@.take(k as int),
            ).len(),
            forall|i: int|
                0 <= i < r@.len() ==> {
                    &&& (#[trigger] r@[i].why, r@[i].issues@) == milestone_discrepancies(
                        desired@.take(k as int),
                        current@,
                        issues@.take(k as int),
                    )[i]
                    &&& r@[i].org == repo.org
                    &&& r@[i].repo == repo.repo
                },
        decreases desired@.len() - k,
    {
        assert(desired@.take(k + 1).drop_last() =~= desired@.take(k as int));
        assert(issues@.take(k + 1).drop_last() =~= issues@.take(k as int));
        assert(desired@.take(k + 1).last() == desired@[k as int]);
        assert(issues@.take(k + 1).last() == issues@[k as int]);
        if let Some(d) = diff_milestone(&desired[k], current, &issues[k]) {
            r.push(
                MilestoneUpdate {
                    org: repo.org.clone(),
                    repo: repo.repo.clone(),
                    why: d,
                    issues: copy_issues(&issues[k]),
                },
            );
        }
        k = k + 1;
    }
    assert(desired@.take(k as int) =~= desired@);
    assert(issues@.take(k as int) =~= issues@);
    r
}

/// The fields sent to create or update a milestone; absent ones are left out
/// of the request.
pub struct MilestonePayload {
    pub title: String,
    pub description: Option<String>,
    pub state: Option<String>,
    pub due_on: Option<String>,
}

/// A request to the tracker that resolves a milestone discrepancy.
pub enum MilestoneRequest {
    /// Create a milestone.
    Create(MilestonePayload),
    /// Update the milestone with this number.
    Update(i64, MilestonePayload),
}

/// Moves an issue to the milestone with the given number.
#[derive(Debug, Clone, Copy, PartialEq, Eq, Structural)]
pub struct IssuePatch {
    pub issue: u64,
    pub milestone: i64,
}

pub open spec fn payload_of(want: Milestone) -> MilestonePayload {
    MilestonePayload {
        title: want.title,
        description: want.description,
        state: want.state,
        due_on: want.due,
    }
}

/// The request that resolves a discrepancy; the issues move only after it
/// succeeded, to the milestone it created or updated.
pub fn milestone_request(why: &MilestoneDiscrepancy) -> (r: MilestoneRequest)
    ensures
        r == match *why {
            MilestoneDiscrepancy::Missing(want) => MilestoneRequest::Create(payload_of(want)),
            MilestoneDiscrepancy::Changed(want, number, _) => MilestoneRequest::Update(
                number,
                payload_of(want),
            ),
        },
{
    let want = match why {
        MilestoneDiscrepancy::Missing(want) => want,
        MilestoneDiscrepancy::Changed(want, _, _) => want,
    };
    let payload = MilestonePayload {
        title: want.title.clone(),
        description: copy_opt(&want.description),
        state: copy_opt(&want.state),
        due_on: copy_opt(&want.due),
    };
    match why {
        MilestoneDiscrepancy::Missing(_) => MilestoneRequest::Create(payload),
        MilestoneDiscrepancy::Changed(_, number, _) => MilestoneRequest::Update(*number, payload),
    }
}

/// The patches that move each issue of an update, in order, to the milestone
/// with number `milestone`.
pub fn issue_reassignments(update: &MilestoneUpdate, milestone: i64) -> (r: Vec<IssuePatch>)
    ensures
        r@.len() == update.issues@.len(),
        forall|i: int|
            0 <= i < r@.len() ==> #[trigger] r@[i] == (IssuePatch {
                issue: update.issues@[i].number,
                milestone,
            }),
{
    let mut r: Vec<IssuePatch> = Vec::new();
    let mut i: usize = 0;
    while i < update.issues.len()
        invariant
            i <= update.issues@.len(),
            r@.len() == i,
            forall|j: int|
                0 <= j < i ==> #[trigger] r@[j] == (IssuePatch {
                    issue: update.issues@[j].number,
                    milestone,
                }),
        decreases update.issues@.len() - i,
    {
        r.push(IssuePatch { issue: update.issues[i].number, milestone });
        i = i + 1;
    }
    r
}

/// A milestone that replaces one with open issues is reported with those
/// issues, whether it is new or already agrees with its declaration.
pub proof fn lemma_migration_carries_issues(
    want: Milestone,
    current: Seq<RemoteMilestone>,
    issues: Seq<Issue>,
)
    requires
        want.replaces matches Some(a) && find_milestone(current, a@) matches Some(old)
            && old.open_issues matches Some(n) && n > 0,
        issues.len() > 0,
    ensures
        migration_source_of(want, current) == Ok::<Option<i64>, Seq<char>>(
            Some(find_milestone(current, want.replaces->0@)->0.number),
        ),
        milestone_discrepancy(want, current, issues) matches Some(d) && (
        d is Missing <==> find_milestone(current, want.title@) is None),
{
}

/// Resolving the discrepancies of the declared milestones moves, for each
/// milestone reported, exactly the open issues handed in for it.
pub proof fn lemma_reported_issues_are_handed_in(
    desired: Seq<Milestone>,
    current: Seq<RemoteMilestone>,
    issues: Seq<Vec<Issue>>,
    k: int,
)
    requires
        issues.len() == desired.len(),
        0 <= k < desired.len(),
        issues[k]@.len() > 0,
    ensures
        exists|i: int|
            0 <= i < milestone_discrepancies(desired, current, issues).len() && (
            #[trigger] milestone_discrepancies(desired, current, issues)[i]).1 == issues[k]@,
    decreases desired.len(),
{
    let ds = milestone_discrepancies(desired, current, issues);
    let last = desired.len() - 1;
    assert(milestone_discrepancy(desired[last], current, issues[last]@) is Some || issues[last]@.len()
        == 0);
    if k == last {
        assert(ds[ds.len() - 1].1 == issues[k]@);
    } else {
        lemma_reported_issues_are_handed_in(desired.drop_last(), current, issues.drop_last(), k);
        let rest = milestone_discrepancies(desired.drop_last(), current, issues.drop_last());
        let i = choose|i: int| 0 <= i < rest.len() && (#[trigger] rest[i]).1 == issues.drop_last()[k]@;
        assert(ds[i] == rest[i]);
    }
}

/// The declared milestones have distinct titles.
pub open spec fn titles_unique(desired: Seq<Milestone>) -> bool {
    forall|i: int, j: int|
        0 <= i < j < desired.len() ==> #[trigger] desired[i].title@ != #[trigger] desired[j].title@
}

/// A declared milestone gives every field that a request sends.
pub open spec fn fully_declared(want: Milestone) -> bool {
    &&& want.description is Some
    &&& want.state is Some
    &&& want.due is Some
}

/// A field after a request: one that the request leaves out keeps its value.
pub open spec fn sent_or_kept(sent: Option<String>, kept: Option<String>) -> Option<String> {
    if sent is Some {
        sent
    } else {
        kept
    }
}

/// A milestone after an update that sends the fields of `want`.
pub open spec fn updated(cur: RemoteMilestone, want: Milestone) -> RemoteMilestone {
    RemoteMilestone {
        description: sent_or_kept(want.description, cur.description),
        state: sent_or_kept(want.state, cur.state),
        due: sent_or_kept(want.due, cur.due),
        ..cur
    }
}

/// A milestone created from `want`; the number and issue count that the
/// tracker gives it play no part in the comparison, and are taken as zero and
/// absent.
pub open spec fn created(want: Milestone) -> RemoteMilestone {
    RemoteMilestone {
        number: 0,
        title: want.title,
        description: want.description,
        state: want.state,
        due: want.due,
        open_issues: None,
    }
}

/// A listing in which every milestone titled `title` is updated from `want`.
pub open spec fn updated_all(remote: Seq<RemoteMilestone>, title: Seq<char>, want: Milestone) -> Seq<
    RemoteMilestone,
>
    decreases remote.len(),
{
    if remote.len() == 0 {
        remote
    } else {
        let l = remote.last();
        updated_all(remote.drop_last(), title, want).push(
            if l.title@ == title {
                updated(l, want)
            } else {
                l
            },
        )
    }
}

/// The milestones of a repository once the request that resolves `d` has
/// succeeded.
pub open spec fn milestone_applied(remote: Seq<RemoteMilestone>, d: MilestoneDiscrepancy) -> Seq<
    RemoteMilestone,
> {
    match d {
        MilestoneDiscrepancy::Missing(want) => remote.push(created(want)),
        MilestoneDiscrepancy::Changed(want, _, _) => updated_all(remote, want.title@, want),
    }
}

/// The milestones of a repository once the requests for all of `ds` have
/// succeeded, in order.
pub open spec fn milestones_applied(
    remote: Seq<RemoteMilestone>,
    ds: Seq<(MilestoneDiscrepancy, Seq<Issue>)>,
) -> Seq<RemoteMilestone>
    decreases ds.len(),
{
    if ds.len() == 0 {
        remote
    } else {
        milestone_applied(milestones_applied(remote, ds.drop_last()), ds.last().0)
    }
}

proof fn lemma_find_milestone_has_title(current: Seq<RemoteMilestone>, title: Seq<char>)
    ensures
        find_milestone(current, title) matches Some(l) ==> l.title@ == title,
    decreases current.len(),
{
    if current.len() > 0 {
        lemma_find_milestone_has_title(current.drop_last(), title);
    }
}

proof fn lemma_find_milestone_push(remote: Seq<RemoteMilestone>, x: RemoteMilestone, title: Seq<char>)
    ensures
        find_milestone(remote.push(x), title) == if x.title@ == title {
            Some(x)
        } else {
            find_milestone(remote, title)
        },
{
    assert(remote.push(x).drop_last() =~= remote);
}

proof fn lemma_find_updated_all(
    remote: Seq<RemoteMilestone>,
    want: Milestone,
    title: Seq<char>,
)
    ensures
        find_milestone(updated_all(remote, want.title@, want), title) == if title == want.title@ {
            match find_milestone(remote, title) {
                Some(cur) => Some(updated(cur, want)),
                None => None,
            }
        } else {
            find_milestone(remote, title)
        },
    decreases remote.len(),
{
    if remote.len() > 0 {
        let rest = updated_all(remote.drop_last(), want.title@, want);
        lemma_find_updated_all(remote.drop_last(), want, title);
        let l = remote.last();
        lemma_find_milestone_push(
            rest,
            if l.title@ == want.title@ {
                updated(l, want)
            } else {
                l
            },
            title,
        );
    }
}

/// Declared milestones that the repository has with the declared fields, and
/// to which no issue must move, give no discrepancy.
pub proof fn lemma_synced_milestones_give_nothing(
    desired: Seq<Milestone>,
    current: Seq<RemoteMilestone>,
    issues: Seq<Vec<Issue>>,
)
    requires
        issues.len() == desired.len(),
        forall|j: int| 0 <= j < issues.len() ==> (#[trigger] issues[j])@.len() == 0,
        forall|j: int|
            0 <= j < desired.len() ==> (#[trigger] find_milestone(
                current,
                desired[j].title@,
            ) matches Some(c) && milestone_in_sync(desired[j], c)),
    ensures
        milestone_discrepancies(desired, current, issues) == Seq::<
            (MilestoneDiscrepancy, Seq<Issue>),
        >::empty(),
    decreases desired.len(),
{
    if desired.len() > 0 {
        let prefix = desired.drop_last();
        let ip = issues.drop_last();
        assert forall|j: int| 0 <= j < ip.len() implies (#[trigger] ip[j])@.len() == 0 by {
            assert(ip[j] == issues[j]);
        }
        assert forall|j: int|
            0 <= j < prefix.len() implies (#[trigger] find_milestone(
                current,
                prefix[j].title@,
            ) matches Some(c) && milestone_in_sync(prefix[j], c)) by {
            assert(prefix[j] == desired[j]);
        }
        lemma_synced_milestones_give_nothing(prefix, current, ip);
        assert(find_milestone(current, desired[desired.len() - 1].title@) is Some);
        assert(issues[issues.len() - 1]@.len() == 0);
    }
}

proof fn lemma_milestones_converge_prefix(
    desired: Seq<Milestone>,
    current: Seq<RemoteMilestone>,
    issues: Seq<Vec<Issue>>,
    k: int,
)
    requires
        titles_unique(desired),
        forall|j: int| 0 <= j < desired.len() ==> fully_declared(#[trigger] desired[j]),
        issues.len() == desired.len(),
        0 <= k <= desired.len(),
    ensures
        ({
            let after = milestones_applied(
                current,
                milestone_discrepancies(desired.take(k), current, issues.take(k)),
            );
            &&& forall|j: int|
                0 <= j < k ==> (#[trigger] find_milestone(after, desired[j].title@) matches Some(x)
                    && milestone_in_sync(desired[j], x))
            &&& forall|n: Seq<char>|
                (forall|j: int| 0 <= j < k ==> #[trigger] desired[j].title@ != n) ==> (
                #[trigger] find_milestone(after, n) == find_milestone(current, n))
        }),
    decreases k,
{
    if k == 0 {
        assert(desired.take(0) =~= Seq::<Milestone>::empty());
    } else {
        lemma_milestones_converge_prefix(desired, current, issues, k - 1);
        let pre = desired.take(k - 1);
        let cur_k = desired.take(k);
        let ipre = issues.take(k - 1);
        let icur = issues.take(k);
        assert(cur_k.drop_last() =~= pre);
        assert(icur.drop_last() =~= ipre);
        assert(cur_k.last() == desired[k - 1]);
        assert(icur.last() == issues[k - 1]);
        let w = desired[k - 1];
        assert(fully_declared(w));
        let rest = milestone_discrepancies(pre, current, ipre);
        let before = milestones_applied(current, rest);
        let after = milestones_applied(
            current,
            milestone_discrepancies(cur_k, current, icur),
        );
        assert(forall|j: int| 0 <= j < k - 1 ==> #[trigger] desired[j].title@ != w.title@);
        assert(find_milestone(before, w.title@) == find_milestone(current, w.title@));
        lemma_find_milestone_has_title(current, w.title@);
        match milestone_discrepancy(w, current, issues[k - 1]@) {
            Some(d) => {
                let entry = (d, issues[k - 1]@);
                assert(rest.push(entry).drop_last() =~= rest);
                assert(after == milestone_applied(before, d));
                assert forall|n: Seq<char>| #[trigger]
                    find_milestone(after, n) == if w.title@ == n {
                        match find_milestone(before, n) {
                            Some(c) => if d is Missing {
                                Some(created(w))
                            } else {
                                Some(updated(c, w))
                            },
                            None => Some(created(w)),
                        }
                    } else {
                        find_milestone(before, n)
                    } by {
                    match d {
                        MilestoneDiscrepancy::Missing(x) => {
                            lemma_find_milestone_push(before, created(w), n);
                        },
                        MilestoneDiscrepancy::Changed(x, _, _) => {
                            lemma_find_updated_all(before, w, n);
                        },
                    }
                }
                assert forall|j: int|
                    0 <= j < k implies (#[trigger] find_milestone(
                        after,
                        desired[j].title@,
                    ) matches Some(x) && milestone_in_sync(desired[j], x)) by {
                    if j < k - 1 {
                        assert(desired[j].title@ != w.title@);
                        assert(find_milestone(after, desired[j].title@) == find_milestone(
                            before,
                            desired[j].title@,
                        ));
                    }
                }
            },
            None => {
                assert(after == before);
            },
        }
    }
}

/// Resolving every discrepancy found and comparing again finds nothing more to
/// do, once the moved issues are gone from the replaced milestones: when the
/// declared milestones have distinct titles and each gives a description, a
/// state and a due date (a field left out of a request keeps the tracker's
/// value, which may differ).
pub proof fn lemma_milestones_converge(
    desired: Seq<Milestone>,
    current: Seq<RemoteMilestone>,
    issues: Seq<Vec<Issue>>,
    next_issues: Seq<Vec<Issue>>,
)
    requires
        titles_unique(desired),
        forall|j: int| 0 <= j < desired.len() ==> fully_declared(#[trigger] desired[j]),
        issues.len() == desired.len(),
        next_issues.len() == desired.len(),
        forall|j: int| 0 <= j < next_issues.len() ==> (#[trigger] next_issues[j])@.len() == 0,
    ensures
        milestone_discrepancies(
            desired,
            milestones_applied(current, milestone_discrepancies(desired, current, issues)),
            next_issues,
        ) == Seq::<(MilestoneDiscrepancy, Seq<Issue>)>::empty(),
{
    lemma_milestones_converge_prefix(desired, current, issues, desired.len() as int);
    assert(desired.take(desired.len() as int) =~= desired);
    assert(issues.take(issues.len() as int) =~= issues);
    lemma_synced_milestones_give_nothing(
        desired,
        milestones_applied(current, milestone_discrepancies(desired, current, issues)),
        next_issues,
    );
}

} // verus!
