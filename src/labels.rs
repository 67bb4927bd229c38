//! Labels: what differs between the declared labels and those a repository
//! has, and the requests that make them agree.
use vstd::prelude::*;
use crate::config::{copy_opt, Label, Repo};

verus! {

/// What `str::to_lowercase` makes of a text.
pub uninterp spec fn lower_of(text: Seq<char>) -> Seq<char>;

/// Relies on `str::to_lowercase`: the result depends on the characters alone.
#[verifier::external_body]
fn lowercase(text: &str) -> (r: String)
    ensures
        r@ == lower_of(text@),
{
    text.to_lowercase()
}

/// A description as the tracker compares it: an absent one is empty.
pub open spec fn desc_text(d: Option<String>) -> Seq<char> {
    match d {
        Some(s) => s@,
        None => Seq::empty(),
    }
}

/// The label of a listing that a name selects: the last one with that name.
pub open spec fn find_label(current: Seq<Label>, name: Seq<char>) -> Option<Label>
    decreases current.len(),
{
    if current.len() == 0 {
        None
    } else if current.last().name@ == name {
        Some(current.last())
    } else {
        find_label(current.drop_last(), name)
    }
}

/// A present label agrees with the wanted one: same colour up to case, same
/// description.
pub open spec fn in_sync(want: Label, cur: Label) -> bool {
    &&& lower_of(cur.color@) == lower_of(want.color@)
    &&& desc_text(cur.description) == desc_text(want.description)
}

/// Why a declared label needs work.
pub enum LabelDiscrepancy {
    /// The repository has no label of that name: the wanted label.
    Missing(Label),
    /// The repository's label differs: the wanted label, then the current one.
    Changed(Label, Label),
}

/// A discrepancy, with the repository it was found in.
pub struct LabelUpdate {
    pub org: String,
    pub repo: String,
    pub why: LabelDiscrepancy,
}

pub open spec fn label_discrepancy(want: Label, current: Seq<Label>) -> Option<LabelDiscrepancy> {
    match find_label(current, want.name@) {
        None => Some(LabelDiscrepancy::Missing(want)),
        Some(cur) => if in_sync(want, cur) {
            None
        } else {
            Some(LabelDiscrepancy::Changed(want, cur))
        },
    }
}

/// The discrepancies of the declared labels against a listing, in declared
/// order.
pub open spec fn label_discrepancies(desired: Seq<Label>, current: Seq<Label>) -> Seq<
    LabelDiscrepancy,
>
    decreases desired.len(),
{
    if desired.len() == 0 {
        Seq::empty()
    } else {
        let rest = label_discrepancies(desired.drop_last(), current);
        match label_discrepancy(desired.last(), current) {
            Some(d) => rest.push(d),
            None => rest,
        }
    }
}

/// The position of the label that a name selects in a listing.
pub fn find_label_index(current: &Vec<Label>, name: &String) -> (r: Option<usize>)
    ensures
        match r {
            Some(i) => i < current@.len() && find_label(current@, name@) == Some(current@[i as int]),
            None => find_label(current@, name@) is None,
        },
{
    let mut i: usize = current.len();
    assert(current@.take(i as int) =~= current@);
    while i > 0
        invariant
            i <= current@.len(),
            find_label(current@, name@) == find_label(current@.take(i as int), name@),
        decreases i,
    {
        let ghost prefix = current@.take(i as int);
        assert(prefix.drop_last() =~= current@.take(i - 1));
        if current[i - 1].name == *name {
            return Some(i - 1);
        }
        i = i - 1;
    }
    None
}

fn desc_eq(a: &Option<String>, b: &Option<String>) -> (r: bool)
    ensures
        r == (desc_text(*a) == desc_text(*b)),
{
    match a {
        Some(x) => match b {
            Some(y) => *x == *y,
            None => {
                let r = x.as_str().is_empty();
                assert(r ==> x@ =~= Seq::<char>::empty());
                r
            },
        },
        None => match b {
            Some(y) => {
                let r = y.as_str().is_empty();
                assert(r ==> y@ =~= Seq::<char>::empty());
                r
            },
            None => true,
        },
    }
}

/// The discrepancy of one declared label against a listing, if any.
pub fn diff_label(want: &Label, current: &Vec<Label>) -> (r: Option<LabelDiscrepancy>)
    ensures
        r == label_discrepancy(*want, current@),
{
    match find_label_index(current, &want.name) {
        None => Some(LabelDiscrepancy::Missing(want.copy())),
        Some(i) => {
            let cur = &current[i];
            if lowercase(cur.color.as_str()) == lowercase(want.color.as_str()) && desc_eq(
                &cur.description,
                &want.description,
            ) {
                None
            } else {
                Some(LabelDiscrepancy::Changed(want.copy(), cur.copy()))
            }
        },
    }
}

/// The discrepancies of the declared labels against the labels that a
/// repository has, in declared order; labels that are only in the repository
/// are left alone.
pub fn diff_labels(repo: &Repo, desired: &Vec<Label>, current: &Vec<Label>) -> (r: Vec<LabelUpdate>)
    ensures
        r@.len() == label_discrepancies(desired@, current@).len(),
        forall|i: int|
            0 <= i < r@.len() ==> {
                &&& #[trigger] r@[i].why == label_discrepancies(desired@, current@)[i]
                &&& r@[i].org == repo.org
                &&& r@[i].repo == repo.repo
            },
{
    let mut r: Vec<LabelUpdate> = Vec::new();
    let mut k: usize = 0;
    while k < desired.len()
        invariant
            k <= desired@.len(),
            r@.len() == label_discrepancies(desired@.take(k as int), current@).len(),
            forall|i: int|
                0 <= i < r@.len() ==> {
                    &&& #[trigger] r@[i].why == label_discrepancies(
                        desired@.take(k as int),
                        current@,
                    )[i]
                    &&& r@[i].org == repo.org
                    &&& r@[i].repo == repo.repo
                },
        decreases desired@.len() - k,
    {
        let ghost before = r@;
        assert(desired@.take(k + 1).drop_last() =~= desired@.take(k as int));
        assert(desired@.take(k + 1).last() == desired@[k as int]);
        if let Some(d) = diff_label(&desired[k], current) {
            r.push(LabelUpdate { org: repo.org.clone(), repo: repo.repo.clone(), why: d });
        }
        k = k + 1;
    }
    assert(desired@.take(k as int) =~= desired@);
    r
}

/// A request to the tracker that resolves a label discrepancy.
pub enum LabelRequest {
    /// Create a label; an absent description is sent as an empty one.
    Create { name: String, color: String, description: String },
    /// Update the label now named `current_name` in place.
    Update {
        current_name: String,
        name: String,
        color: String,
        description: Option<String>,
    },
}

/// The request that resolves a discrepancy.
pub fn label_request(why: &LabelDiscrepancy) -> (r: LabelRequest)
    ensures
        match (*why, r) {
            (LabelDiscrepancy::Missing(want), LabelRequest::Create { name, color, description }) => {
                &&& name == want.name
                &&& color == want.color
                &&& description@ == desc_text(want.description)
            },
            (
                LabelDiscrepancy::Changed(want, cur),
                LabelRequest::Update { current_name, name, color, description },
            ) => {
                &&& current_name == cur.name
                &&& name == want.name
                &&& color == want.color
                &&& description == want.description
            },
            _ => false,
        },
{
    match why {
        LabelDiscrepancy::Missing(want) => LabelRequest::Create {
            name: want.name.clone(),
            color: want.color.clone(),
            description: match &want.description {
                Some(d) => d.clone(),
                None => String::new(),
            },
        },
        LabelDiscrepancy::Changed(want, cur) => LabelRequest::Update {
            current_name: cur.name.clone(),
            name: want.name.clone(),
            color: want.color.clone(),
            description: copy_opt(&want.description),
        },
    }
}

/// The declared labels have distinct names.
pub open spec fn names_unique(desired: Seq<Label>) -> bool {
    forall|i: int, j: int|
        0 <= i < j < desired.len() ==> #[trigger] desired[i].name@ != #[trigger] desired[j].name@
}

/// A listing in which every label named `name` is replaced by `want`.
pub open spec fn replaced(remote: Seq<Label>, name: Seq<char>, want: Label) -> Seq<Label>
    decreases remote.len(),
{
    if remote.len() == 0 {
        remote
    } else {
        let l = remote.last();
        replaced(remote.drop_last(), name, want).push(if l.name@ == name { want } else { l })
    }
}

/// The labels of a repository once the request that resolves `d` has
/// succeeded: a created label carries the wanted fields, and an updated label
/// takes them in place.
pub open spec fn label_applied(remote: Seq<Label>, d: LabelDiscrepancy) -> Seq<Label> {
    match d {
        LabelDiscrepancy::Missing(want) => remote.push(want),
        LabelDiscrepancy::Changed(want, cur) => replaced(remote, cur.name@, want),
    }
}

/// The labels of a repository once the requests for all of `ds` have
/// succeeded, in order.
pub open spec fn labels_applied(remote: Seq<Label>, ds: Seq<LabelDiscrepancy>) -> Seq<Label>
    decreases ds.len(),
{
    if ds.len() == 0 {
        remote
    } else {
        label_applied(labels_applied(remote, ds.drop_last()), ds.last())
    }
}

proof fn lemma_find_has_name(current: Seq<Label>, name: Seq<char>)
    ensures
        find_label(current, name) matches Some(l) ==> l.name@ == name,
    decreases current.len(),
{
    if current.len() > 0 {
        lemma_find_has_name(current.drop_last(), name);
    }
}

proof fn lemma_find_push(remote: Seq<Label>, x: Label, name: Seq<char>)
    ensures
        find_label(remote.push(x), name) == if x.name@ == name {
            Some(x)
        } else {
            find_label(remote, name)
        },
{
    assert(remote.push(x).drop_last() =~= remote);
}

proof fn lemma_find_replaced(remote: Seq<Label>, old_name: Seq<char>, want: Label, name: Seq<char>)
    requires
        want.name@ == old_name,
    ensures
        find_label(replaced(remote, old_name, want), name) == if name == old_name {
            if find_label(remote, name) is Some {
                Some(want)
            } else {
                None
            }
        } else {
            find_label(remote, name)
        },
    decreases remote.len(),
{
    if remote.len() > 0 {
        let rest = replaced(remote.drop_last(), old_name, want);
        lemma_find_replaced(remote.drop_last(), old_name, want, name);
        let l = remote.last();
        lemma_find_push(rest, if l.name@ == old_name { want } else { l }, name);
    }
}

/// Labels that the repository has with the declared colour (up to case) and
/// description give no discrepancy.
pub proof fn lemma_synced_labels_give_nothing(desired: Seq<Label>, current: Seq<Label>)
    requires
        forall|j: int|
            0 <= j < desired.len() ==> (#[trigger] find_label(current, desired[j].name@) matches Some(
                c,
            ) && in_sync(desired[j], c)),
    ensures
        label_discrepancies(desired, current) == Seq::<LabelDiscrepancy>::empty(),
    decreases desired.len(),
{
    if desired.len() > 0 {
        let prefix = desired.drop_last();
        assert forall|j: int|
            0 <= j < prefix.len() implies (#[trigger] find_label(current, prefix[j].name@) matches Some(
                c,
            ) && in_sync(prefix[j], c)) by {
            assert(prefix[j] == desired[j]);
        }
        lemma_synced_labels_give_nothing(prefix, current);
        assert(find_label(current, desired[desired.len() - 1].name@) is Some);
    }
}

/// Declared labels that the repository lacks give one `Missing` each, in
/// declared order.
pub proof fn lemma_absent_labels_are_missing(desired: Seq<Label>, current: Seq<Label>)
    requires
        forall|j: int|
            0 <= j < desired.len() ==> #[trigger] find_label(current, desired[j].name@) is None,
    ensures
        label_discrepancies(desired, current).len() == desired.len(),
        forall|j: int|
            0 <= j < desired.len() ==> #[trigger] label_discrepancies(desired, current)[j]
                == LabelDiscrepancy::Missing(desired[j]),
    decreases desired.len(),
{
    if desired.len() > 0 {
        let prefix = desired.drop_last();
        assert forall|j: int|
            0 <= j < prefix.len() implies #[trigger] find_label(current, prefix[j].name@) is None by {
            assert(prefix[j] == desired[j]);
        }
        lemma_absent_labels_are_missing(prefix, current);
        assert(find_label(current, desired[desired.len() - 1].name@) is None);
        assert forall|j: int|
            0 <= j < desired.len() implies #[trigger] label_discrepancies(desired, current)[j]
                == LabelDiscrepancy::Missing(desired[j]) by {
            if j < prefix.len() {
                assert(prefix[j] == desired[j]);
            }
        }
    }
}

proof fn lemma_converge_prefix(desired: Seq<Label>, current: Seq<Label>, k: int)
    requires
        names_unique(desired),
        0 <= k <= desired.len(),
    ensures
        ({
            let after = labels_applied(current, label_discrepancies(desired.take(k), current));
            &&& forall|j: int|
                0 <= j < k ==> (#[trigger] find_label(after, desired[j].name@) matches Some(x)
                    && in_sync(desired[j], x))
            &&& forall|n: Seq<char>|
                (forall|j: int| 0 <= j < k ==> #[trigger] desired[j].name@ != n) ==> (
                #[trigger] find_label(after, n) == find_label(current, n))
        }),
    decreases k,
{
    if k == 0 {
        assert(desired.take(0) =~= Seq::<Label>::empty());
    } else {
        lemma_converge_prefix(desired, current, k - 1);
        let pre = desired.take(k - 1);
        let cur_k = desired.take(k);
        assert(cur_k.drop_last() =~= pre);
        assert(cur_k.last() == desired[k - 1]);
        let w = desired[k - 1];
        let rest = label_discrepancies(pre, current);
        let before = labels_applied(current, rest);
        let after = labels_applied(current, label_discrepancies(cur_k, current));
        assert(forall|j: int| 0 <= j < k - 1 ==> #[trigger] desired[j].name@ != w.name@);
        assert(find_label(before, w.name@) == find_label(current, w.name@));
        lemma_find_has_name(current, w.name@);
        match label_discrepancy(w, current) {
            Some(d) => {
                assert(rest.push(d).drop_last() =~= rest);
                assert(after == label_applied(before, d));
                match d {
                    LabelDiscrepancy::Missing(x) => {
                        assert forall|n: Seq<char>| #[trigger]
                            find_label(after, n) == if w.name@ == n {
                                Some(w)
                            } else {
                                find_label(before, n)
                            } by {
                            lemma_find_push(before, w, n);
                        }
                    },
                    LabelDiscrepancy::Changed(x, c) => {
                        assert forall|n: Seq<char>| #[trigger]
                            find_label(after, n) == if w.name@ == n {
                                Some(w)
                            } else {
                                find_label(before, n)
                            } by {
                            lemma_find_replaced(before, c.name@, w, n);
                        }
                    },
                }
                assert forall|j: int|
                    0 <= j < k implies (#[trigger] find_label(after, desired[j].name@) matches Some(
                        x,
                    ) && in_sync(desired[j], x)) by {
                    if j < k - 1 {
                        assert(desired[j].name@ != w.name@);
                        assert(find_label(after, desired[j].name@) == find_label(
                            before,
                            desired[j].name@,
                        ));
                    }
                }
            },
            None => {
                assert(after == before);
            },
        }
    }
}

/// Resolving every discrepancy found and comparing again finds nothing more to
/// do, when the declared labels have distinct names.
pub proof fn lemma_labels_converge(desired: Seq<Label>, current: Seq<Label>)
    requires
        names_unique(desired),
    ensures
        label_discrepancies(
            desired,
            labels_applied(current, label_discrepancies(desired, current)),
        ) == Seq::<LabelDiscrepancy>::empty(),
{
    lemma_converge_prefix(desired, current, desired.len() as int);
    assert(desired.take(desired.len() as int) =~= desired);
    lemma_synced_labels_give_nothing(
        desired,
        labels_applied(current, label_discrepancies(desired, current)),
    );
}

} // verus!
