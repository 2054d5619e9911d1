//! The rows of the dashboard, made from pods and nodes.

use vstd::prelude::*;
use vstd::string::*;
use crate::helpers::{
    age_text, bytes_text, human_bytes, human_time, human_time_text, parse_age,
};
use crate::models::k8s::{
    node_annotation_key, Container, ContainerStatus, Node, NodeCondition, Pod, VolumeMount,
};
use crate::models::string_map::{same_text, StringMap};
use crate::models::views::{
    ClusterSummary, ContainerDetailView, ContainerView, NamespaceView, NodeView, PodView,
    VolumeView,
};
use crate::text::{
    integer_of, lemma_lex_irreflexive, lemma_lex_total, lemma_lex_transitive, lex_less,
    parse_i64, text_less,
};
use crate::time::Timestamp;

verus! {

/// The badge of a pod phase.
pub open spec fn phase_class(phase: Seq<char>) -> Seq<char> {
    if phase == "Running"@ {
        "badge-success"@
    } else if phase == "Pending"@ {
        "badge-warning"@
    } else if phase == "Failed"@ {
        "badge-error"@
    } else {
        "badge-info"@
    }
}

/// The number of ready containers among `statuses`.
pub open spec fn ready_among(statuses: Seq<ContainerStatus>) -> nat
    decreases statuses.len(),
{
    if statuses.len() == 0 {
        0
    } else {
        ready_among(statuses.drop_last()) + if statuses.last().ready {
            1nat
        } else {
            0nat
        }
    }
}

proof fn lemma_ready_among_bound(statuses: Seq<ContainerStatus>)
    ensures
        ready_among(statuses) <= statuses.len(),
    decreases statuses.len(),
{
    if statuses.len() > 0 {
        lemma_ready_among_bound(statuses.drop_last());
    }
}

/// The badge of a pod phase.
pub fn status_class(phase: &str) -> (class: String)
    ensures
        class@ == phase_class(phase@),
{
    if same_text(phase, "Running") {
        String::from_str("badge-success")
    } else if same_text(phase, "Pending") {
        String::from_str("badge-warning")
    } else if same_text(phase, "Failed") {
        String::from_str("badge-error")
    } else {
        String::from_str("badge-info")
    }
}

/// `pv` is the row of `pod` at `now`.
pub open spec fn is_pod_view(pv: PodView, pod: Pod, now: Timestamp) -> bool {
    &&& pv.name == pod.metadata.name
    &&& pv.namespace == pod.metadata.namespace
    &&& pv.node@ == match pod.owner() {
        Some(node) => node,
        None => Seq::<char>::empty(),
    }
    &&& pv.status == pod.status.phase
    &&& pv.status_class@ == phase_class(pod.status.phase@)
    &&& pv.ip == pod.status.pod_ip
    &&& pv.age@ == age_text(pod.status.start_time, now)
    &&& pv.containers == pod.spec.containers@.len()
    &&& pv.ready == ready_among(pod.status.container_statuses@)
}

/// `views` holds the rows of `pods` at `now`, one for one.
pub open spec fn are_pod_views(views: Seq<PodView>, pods: Seq<Pod>, now: Timestamp) -> bool {
    &&& views.len() == pods.len()
    &&& forall|i: int| 0 <= i < views.len() ==> is_pod_view(#[trigger] views[i], pods[i], now)
}

/// The pods that are annotated with the node `name`.
pub open spec fn on_node(name: Seq<char>) -> spec_fn(Pod) -> bool {
    |pod: Pod| pod.owner() == Some(name)
}

/// The pods that a namespace filter lets through: all of them where the
/// filter is empty.
pub open spec fn passes(filter: Seq<char>) -> spec_fn(Pod) -> bool {
    |pod: Pod| filter.len() == 0 || pod.metadata.namespace@ == filter
}

/// The number of pods that the dashboard shows as recent.
pub const RECENT_PODS: usize = 10;

/// The row of one pod, with its age at `now`.
pub fn build_pod_view(pod: &Pod, now: Timestamp) -> (pv: PodView)
    ensures
        is_pod_view(pv, *pod, now),
{
    let node = match pod.metadata.annotation(node_annotation_key()) {
        Some(n) => n.clone(),
        None => String::new(),
    };
    let mut ready: usize = 0;
    let mut i: usize = 0;
    while i < pod.status.container_statuses.len()
        invariant
            i <= pod.status.container_statuses@.len(),
            ready == ready_among(pod.status.container_statuses@.take(i as int)),
        decreases pod.status.container_statuses@.len() - i,
    {
        proof {
            let upto = pod.status.container_statuses@.take(i + 1);
            assert(upto.drop_last() =~= pod.status.container_statuses@.take(i as int));
            lemma_ready_among_bound(pod.status.container_statuses@.take(i as int));
        }
        if pod.status.container_statuses[i].ready {
            ready = ready + 1;
        }
        i = i + 1;
    }
    assert(pod.status.container_statuses@.take(i as int) =~= pod.status.container_statuses@);
    PodView {
        name: pod.metadata.name.clone(),
        namespace: pod.metadata.namespace.clone(),
        node,
        status: pod.status.phase.clone(),
        status_class: status_class(pod.status.phase.as_str()),
        ip: pod.status.pod_ip.clone(),
        age: parse_age(&pod.status.start_time, now),
        containers: pod.spec.containers.len(),
        ready,
    }
}

/// The rows of all of `pods`.
pub fn build_pod_views(pods: &Vec<Pod>, now: Timestamp) -> (views: Vec<PodView>)
    ensures
        are_pod_views(views@, pods@, now),
{
    let mut views: Vec<PodView> = Vec::new();
    let mut i: usize = 0;
    while i < pods.len()
        invariant
            i <= pods@.len(),
            are_pod_views(views@, pods@.take(i as int), now),
        decreases pods@.len() - i,
    {
        views.push(build_pod_view(&pods[i], now));
        i = i + 1;
    }
    assert(pods@.take(i as int) =~= pods@);
    views
}

/// The rows of the first pods, up to `RECENT_PODS` of them.
pub fn recent_pod_views(pods: &Vec<Pod>, now: Timestamp) -> (views: Vec<PodView>)
    ensures
        are_pod_views(
            views@,
            pods@.take(
                if pods@.len() < RECENT_PODS {
                    pods@.len() as int
                } else {
                    RECENT_PODS as int
                },
            ),
            now,
        ),
{
    let mut views: Vec<PodView> = Vec::new();
    let mut i: usize = 0;
    while i < pods.len() && i < RECENT_PODS
        invariant
            i <= pods@.len(),
            i <= RECENT_PODS,
            are_pod_views(views@, pods@.take(i as int), now),
        decreases pods@.len() - i,
    {
        views.push(build_pod_view(&pods[i], now));
        i = i + 1;
    }
    views
}

/// The rows of the pods that the namespace filter lets through.
pub fn filter_pod_views(pods: &Vec<Pod>, ns_filter: &str, now: Timestamp) -> (views: Vec<PodView>)
    ensures
        are_pod_views(views@, pods@.filter(passes(ns_filter@)), now),
{
    let everything = ns_filter.is_empty();
    let mut views: Vec<PodView> = Vec::new();
    let mut i: usize = 0;
    proof {
        reveal(Seq::filter);
        assert(pods@.take(0).filter(passes(ns_filter@)) =~= Seq::<Pod>::empty());
    }
    while i < pods.len()
        invariant
            i <= pods@.len(),
            everything == (ns_filter@.len() == 0),
            are_pod_views(views@, pods@.take(i as int).filter(passes(ns_filter@)), now),
        decreases pods@.len() - i,
    {
        proof {
            reveal(Seq::filter);
            assert(pods@.take(i + 1).drop_last() =~= pods@.take(i as int));
        }
        if everything || same_text(pods[i].metadata.namespace.as_str(), ns_filter) {
            views.push(build_pod_view(&pods[i], now));
        }
        i = i + 1;
    }
    assert(pods@.take(i as int) =~= pods@);
    views
}

/// The rows of the pods that are annotated with the node `name`.
pub fn pod_views_on_node(pods: &Vec<Pod>, name: &str, now: Timestamp) -> (views: Vec<PodView>)
    ensures
        are_pod_views(views@, pods@.filter(on_node(name@)), now),
{
    let mut views: Vec<PodView> = Vec::new();
    let mut i: usize = 0;
    proof {
        reveal(Seq::filter);
        assert(pods@.take(0).filter(on_node(name@)) =~= Seq::<Pod>::empty());
    }
    while i < pods.len()
        invariant
            i <= pods@.len(),
            are_pod_views(views@, pods@.take(i as int).filter(on_node(name@)), now),
        decreases pods@.len() - i,
    {
        proof {
            reveal(Seq::filter);
            assert(pods@.take(i + 1).drop_last() =~= pods@.take(i as int));
        }
        let here = match pods[i].metadata.annotation(node_annotation_key()) {
            Some(owner) => same_text(owner.as_str(), name),
            None => false,
        };
        if here {
            views.push(build_pod_view(&pods[i], now));
        }
        i = i + 1;
    }
    assert(pods@.take(i as int) =~= pods@);
    views
}

/// The row of one node on the dashboard.
#[derive(Debug, Clone)]
pub struct DashboardNodeView {
    pub name: String,
    pub healthy: bool,
    pub pod_count: usize,
    pub last_ping_display: String,
}

/// One dashboard row for each node of the summary, with the time of its
/// last ping as seen from `now`.
pub fn dashboard_node_views(summary: &ClusterSummary, now: Timestamp) -> (rows: Vec<
    DashboardNodeView,
>)
    ensures
        rows@.len() == summary.nodes@.len(),
        forall|i: int|
            0 <= i < rows@.len() ==> {
                &&& (#[trigger] rows@[i]).name == summary.nodes@[i].name
                &&& rows@[i].healthy == summary.nodes@[i].healthy
                &&& rows@[i].pod_count == summary.nodes@[i].pod_count
                &&& rows@[i].last_ping_display@ == human_time_text(
                    summary.nodes@[i].last_ping,
                    now,
                )
            },
{
    let mut rows: Vec<DashboardNodeView> = Vec::new();
    let mut i: usize = 0;
    while i < summary.nodes.len()
        invariant
            i <= summary.nodes@.len(),
            rows@.len() == i,
            forall|k: int|
                0 <= k < i ==> {
                    &&& (#[trigger] rows@[k]).name == summary.nodes@[k].name
                    &&& rows@[k].healthy == summary.nodes@[k].healthy
                    &&& rows@[k].pod_count == summary.nodes@[k].pod_count
                    &&& rows@[k].last_ping_display@ == human_time_text(
                        summary.nodes@[k].last_ping,
                        now,
                    )
                },
        decreases summary.nodes@.len() - i,
    {
        let n = &summary.nodes[i];
        rows.push(
            DashboardNodeView {
                name: n.name.clone(),
                healthy: n.healthy,
                pod_count: n.pod_count,
                last_ping_display: human_time(n.last_ping, now),
            },
        );
        i = i + 1;
    }
    rows
}

/// Whether `pod` counts for the namespace `ns` and, where one is given, the
/// phase `phase`.
pub open spec fn counts_for(pod: Pod, ns: Seq<char>, phase: Option<Seq<char>>) -> bool {
    &&& pod.metadata.namespace@ == ns
    &&& match phase {
        Some(p) => pod.status.phase@ == p,
        None => true,
    }
}

/// The number of pods of the namespace `ns` among `pods`, in the phase
/// `phase` where one is given.
pub open spec fn count_pods(pods: Seq<Pod>, ns: Seq<char>, phase: Option<Seq<char>>) -> nat
    decreases pods.len(),
{
    if pods.len() == 0 {
        0
    } else {
        count_pods(pods.drop_last(), ns, phase) + if counts_for(pods.last(), ns, phase) {
            1nat
        } else {
            0nat
        }
    }
}

/// The badge of a namespace: an error where a pod has failed, a warning
/// where one is pending, a success otherwise.
pub open spec fn namespace_class(failed: int, pending: int) -> Seq<char> {
    if failed > 0 {
        "badge-error"@
    } else if pending > 0 {
        "badge-warning"@
    } else {
        "badge-success"@
    }
}

/// `view` is the row of its namespace over `pods`, and the namespace has a
/// pod among them.
pub open spec fn is_namespace_view(view: NamespaceView, pods: Seq<Pod>) -> bool {
    &&& view.pod_count == count_pods(pods, view.name@, None)
    &&& view.running == count_pods(pods, view.name@, Some("Running"@))
    &&& view.pending == count_pods(pods, view.name@, Some("Pending"@))
    &&& view.failed == count_pods(pods, view.name@, Some("Failed"@))
    &&& view.status_class@ == namespace_class(view.failed as int, view.pending as int)
    &&& view.pod_count > 0
}

/// The rows come in the order of their names, each name once.
pub open spec fn sorted_by_name(views: Seq<NamespaceView>) -> bool {
    forall|i: int, j: int|
        0 <= i < j < views.len() ==> lex_less((#[trigger] views[i]).name@, (#[trigger] views[j]).name@)
}

/// Some row is the row of the namespace `ns`.
pub open spec fn has_row(views: Seq<NamespaceView>, ns: Seq<char>) -> bool {
    exists|i: int| 0 <= i < views.len() && (#[trigger] views[i]).name@ == ns
}

/// `views` holds one row for each namespace that has a pod among `pods`, in
/// the order of the names.
pub open spec fn are_namespace_views(views: Seq<NamespaceView>, pods: Seq<Pod>) -> bool {
    &&& forall|i: int| 0 <= i < views.len() ==> is_namespace_view(#[trigger] views[i], pods)
    &&& sorted_by_name(views)
    &&& forall|k: int| 0 <= k < pods.len() ==> has_row(views, (#[trigger] pods[k]).metadata.namespace@)
}

proof fn lemma_count_pods_bound(pods: Seq<Pod>, ns: Seq<char>, phase: Option<Seq<char>>)
    ensures
        count_pods(pods, ns, phase) <= pods.len(),
    decreases pods.len(),
{
    if pods.len() > 0 {
        lemma_count_pods_bound(pods.drop_last(), ns, phase);
    }
}

proof fn lemma_count_pods_none(pods: Seq<Pod>, ns: Seq<char>, phase: Option<Seq<char>>)
    requires
        forall|k: int| 0 <= k < pods.len() ==> (#[trigger] pods[k]).metadata.namespace@ != ns,
    ensures
        count_pods(pods, ns, phase) == 0,
    decreases pods.len(),
{
    if pods.len() > 0 {
        assert forall|k: int| 0 <= k < pods.drop_last().len() implies (
        #[trigger] pods.drop_last()[k]).metadata.namespace@ != ns by {
            assert(pods.drop_last()[k] == pods[k]);
        }
        lemma_count_pods_none(pods.drop_last(), ns, phase);
        assert(pods.last() == pods[pods.len() - 1]);
    }
}

/// A row of another namespace stays the row of its namespace when a pod of
/// the namespace `ns` joins.
proof fn lemma_other_row_stays(view: NamespaceView, before: Seq<Pod>, after: Seq<Pod>)
    requires
        after.len() > 0,
        after.drop_last() == before,
        is_namespace_view(view, before),
        view.name@ != after.last().metadata.namespace@,
    ensures
        is_namespace_view(view, after),
{
}

/// The place of the namespace `ns` among sorted rows: all rows before it
/// come before `ns`, and the row at it, if there is one, does not.
fn slot(views: &Vec<NamespaceView>, ns: &str) -> (j: usize)
    ensures
        j <= views@.len(),
        forall|m: int| 0 <= m < j ==> lex_less((#[trigger] views@[m]).name@, ns@),
        j < views@.len() ==> !lex_less(views@[j as int].name@, ns@),
{
    let mut j: usize = 0;
    while j < views.len()
        invariant
            j <= views@.len(),
            forall|m: int| 0 <= m < j ==> lex_less((#[trigger] views@[m]).name@, ns@),
        decreases views@.len() - j,
    {
        if !text_less(views[j].name.as_str(), ns) {
            return j;
        }
        j = j + 1;
    }
    j
}

/// The badge of a namespace.
fn namespace_badge(failed: usize, pending: usize) -> (class: String)
    ensures
        class@ == namespace_class(failed as int, pending as int),
{
    if failed > 0 {
        String::from_str("badge-error")
    } else if pending > 0 {
        String::from_str("badge-warning")
    } else {
        String::from_str("badge-success")
    }
}

/// The row of the namespace of `pod` once `pod` has joined `before`: the
/// counts of `counts`, which are those of the namespace over `before`, with
/// `pod` added.
fn row_with(name: String, counts: (usize, usize, usize, usize), pod: &Pod, Ghost(before): Ghost<
    Seq<Pod>,
>) -> (view: NamespaceView)
    requires
        name@ == pod.metadata.namespace@,
        before.len() < usize::MAX,
        counts.0 == count_pods(before, name@, None),
        counts.1 == count_pods(before, name@, Some("Running"@)),
        counts.2 == count_pods(before, name@, Some("Pending"@)),
        counts.3 == count_pods(before, name@, Some("Failed"@)),
    ensures
        view.name == name,
        is_namespace_view(view, before.push(*pod)),
{
    proof {
        lemma_count_pods_bound(before, name@, None);
        lemma_count_pods_bound(before, name@, Some("Running"@));
        lemma_count_pods_bound(before, name@, Some("Pending"@));
        lemma_count_pods_bound(before, name@, Some("Failed"@));
        assert(before.push(*pod).drop_last() =~= before);
        assert(before.push(*pod).last() == *pod);
    }
    let phase = pod.status.phase.as_str();
    let running = if same_text(phase, "Running") {
        counts.1 + 1
    } else {
        counts.1
    };
    let pending = if same_text(phase, "Pending") {
        counts.2 + 1
    } else {
        counts.2
    };
    let failed = if same_text(phase, "Failed") {
        counts.3 + 1
    } else {
        counts.3
    };
    NamespaceView {
        name,
        pod_count: counts.0 + 1,
        running,
        pending,
        failed,
        status_class: namespace_badge(failed, pending),
    }
}

/// One row for each namespace that has a pod among `pods`, with its counts
/// by phase and its badge, in the order of the names.
pub fn namespace_views(pods: &Vec<Pod>) -> (views: Vec<NamespaceView>)
    ensures
        are_namespace_views(views@, pods@),
{
    let mut views: Vec<NamespaceView> = Vec::new();
    let mut i: usize = 0;
    while i < pods.len()
        invariant
            i <= pods@.len(),
            are_namespace_views(views@, pods@.take(i as int)),
        decreases pods@.len() - i,
    {
        let ghost before = pods@.take(i as int);
        let ghost after = pods@.take(i + 1);
        let ghost old_views = views@;
        let pod = &pods[i];
        let ghost ns = pod.metadata.namespace@;
        proof {
            assert(after.drop_last() =~= before);
            assert(after =~= before.push(*pod));
        }
        let j = slot(&views, pod.metadata.namespace.as_str());
        let found = j < views.len() && same_text(
            views[j].name.as_str(),
            pod.metadata.namespace.as_str(),
        );
        if found {
            let counts = (views[j].pod_count, views[j].running, views[j].pending, views[j].failed);
            let row = row_with(pod.metadata.namespace.clone(), counts, pod, Ghost(before));
            views.set(j, row);
            proof {
                assert forall|m: int| 0 <= m < views@.len() implies is_namespace_view(
                    #[trigger] views@[m],
                    after,
                ) by {
                    if m != j {
                        assert(views@[m] == old_views[m]);
                        if m < j {
                            assert(lex_less(old_views[m].name@, old_views[j as int].name@));
                        } else {
                            assert(lex_less(old_views[j as int].name@, old_views[m].name@));
                        }
                        lemma_lex_irreflexive(ns);
                        lemma_other_row_stays(old_views[m], before, after);
                    }
                }
                assert(sorted_by_name(views@)) by {
                    assert forall|a: int, b: int| 0 <= a < b < views@.len() implies lex_less(
                        (#[trigger] views@[a]).name@,
                        (#[trigger] views@[b]).name@,
                    ) by {
                        assert(views@[a].name@ == old_views[a].name@);
                        assert(views@[b].name@ == old_views[b].name@);
                        assert(lex_less(old_views[a].name@, old_views[b].name@));
                    }
                }
                assert forall|k: int| 0 <= k < after.len() implies has_row(
                    views@,
                    (#[trigger] after[k]).metadata.namespace@,
                ) by {
                    if k < before.len() {
                        assert(after[k] == before[k]);
                        assert(has_row(old_views, before[k].metadata.namespace@));
                        let w = choose|w: int|
                            0 <= w < old_views.len() && (#[trigger] old_views[w]).name@
                                == before[k].metadata.namespace@;
                        assert(views@[w].name@ == old_views[w].name@);
                    } else {
                        assert(views@[j as int].name@ == ns);
                    }
                }
            }
        } else {
            proof {
                assert forall|k: int| 0 <= k < before.len() implies (
                #[trigger] before[k]).metadata.namespace@ != ns by {
                    assert(has_row(old_views, before[k].metadata.namespace@));
                    let w = choose|w: int|
                        0 <= w < old_views.len() && (#[trigger] old_views[w]).name@
                            == before[k].metadata.namespace@;
                    lemma_lex_irreflexive(ns);
                    if w < j {
                        assert(lex_less(old_views[w].name@, ns));
                    } else {
                        lemma_lex_total(old_views[j as int].name@, ns);
                        if w > j {
                            assert(lex_less(old_views[j as int].name@, old_views[w].name@));
                            if old_views[w].name@ == ns {
                                lemma_lex_transitive(ns, old_views[j as int].name@, ns);
                            }
                        }
                    }
                }
                lemma_count_pods_none(before, ns, None);
                lemma_count_pods_none(before, ns, Some("Running"@));
                lemma_count_pods_none(before, ns, Some("Pending"@));
                lemma_count_pods_none(before, ns, Some("Failed"@));
            }
            let row = row_with(pod.metadata.namespace.clone(), (0, 0, 0, 0), pod, Ghost(before));
            views.insert(j, row);
            proof {
                assert(views@ == old_views.insert(j as int, row));
                lemma_lex_irreflexive(ns);
                if j < old_views.len() {
                    lemma_lex_total(old_views[j as int].name@, ns);
                }
                assert forall|m: int| 0 <= m < old_views.len() implies (
                #[trigger] old_views[m]).name@ != ns && (m >= j ==> lex_less(
                    ns,
                    old_views[m].name@,
                )) by {
                    if m < j {
                        assert(lex_less(old_views[m].name@, ns));
                    } else if m > j {
                        assert(lex_less(old_views[j as int].name@, old_views[m].name@));
                        lemma_lex_transitive(ns, old_views[j as int].name@, old_views[m].name@);
                    }
                }
                assert forall|m: int| 0 <= m < views@.len() implies is_namespace_view(
                    #[trigger] views@[m],
                    after,
                ) by {
                    if m < j {
                        assert(views@[m] == old_views[m]);
                        lemma_other_row_stays(old_views[m], before, after);
                    } else if m > j {
                        assert(views@[m] == old_views[m - 1]);
                        lemma_other_row_stays(old_views[m - 1], before, after);
                    }
                }
                assert(sorted_by_name(views@)) by {
                    assert forall|a: int, b: int| 0 <= a < b < views@.len() implies lex_less(
                        (#[trigger] views@[a]).name@,
                        (#[trigger] views@[b]).name@,
                    ) by {
                        let oa = if a < j {
                            a
                        } else {
                            a - 1
                        };
                        let ob = if b < j {
                            b
                        } else {
                            b - 1
                        };
                        if a != j {
                            assert(views@[a] == old_views[oa]);
                        }
                        if b != j {
                            assert(views@[b] == old_views[ob]);
                        }
                        if a != j && b != j {
                            assert(lex_less(old_views[oa].name@, old_views[ob].name@));
                        } else if a == j {
                            assert(lex_less(ns, old_views[ob].name@));
                        } else {
                            assert(lex_less(old_views[oa].name@, ns));
                        }
                    }
                }
                assert forall|k: int| 0 <= k < after.len() implies has_row(
                    views@,
                    (#[trigger] after[k]).metadata.namespace@,
                ) by {
                    if k < before.len() {
                        assert(after[k] == before[k]);
                        assert(has_row(old_views, before[k].metadata.namespace@));
                        let w = choose|w: int|
                            0 <= w < old_views.len() && (#[trigger] old_views[w]).name@
                                == before[k].metadata.namespace@;
                        let nw = if w < j {
                            w
                        } else {
                            w + 1
                        };
                        assert(views@[nw] == old_views[w]);
                    } else {
                        assert(views@[j as int].name@ == ns);
                    }
                }
            }
        }
        i = i + 1;
    }
    assert(pods@.take(i as int) =~= pods@);
    views
}

/// The names of the namespaces that have a pod among `pods`, each once, in
/// order.
pub fn namespace_names(pods: &Vec<Pod>) -> (names: Vec<String>)
    ensures
        names@.len() > 0 <==> pods@.len() > 0,
        forall|i: int, j: int|
            0 <= i < j < names@.len() ==> lex_less((#[trigger] names@[i])@, (#[trigger] names@[j])@),
        forall|k: int|
            0 <= k < pods@.len() ==> exists|i: int|
                0 <= i < names@.len() && (#[trigger] names@[i])@ == (
                #[trigger] pods@[k]).metadata.namespace@,
        forall|i: int|
            0 <= i < names@.len() ==> count_pods(pods@, (#[trigger] names@[i])@, None) > 0,
{
    let views = namespace_views(pods);
    let mut names: Vec<String> = Vec::new();
    let mut i: usize = 0;
    while i < views.len()
        invariant
            i <= views@.len(),
            names@.len() == i,
            forall|k: int| 0 <= k < i ==> (#[trigger] names@[k]) == views@[k].name,
        decreases views@.len() - i,
    {
        names.push(views[i].name.clone());
        i = i + 1;
    }
    proof {
        assert forall|k: int| 0 <= k < pods@.len() implies exists|i: int|
            0 <= i < names@.len() && (#[trigger] names@[i])@ == (
            #[trigger] pods@[k]).metadata.namespace@ by {
            assert(has_row(views@, pods@[k].metadata.namespace@));
            let w = choose|w: int|
                0 <= w < views@.len() && (#[trigger] views@[w]).name@
                    == pods@[k].metadata.namespace@;
            assert(names@[w]@ == views@[w].name@);
        }
        assert forall|i: int| 0 <= i < names@.len() implies count_pods(
            pods@,
            (#[trigger] names@[i])@,
            None,
        ) > 0 by {
            assert(is_namespace_view(views@[i], pods@));
        }
        if pods@.len() > 0 {
            assert(has_row(views@, pods@[0].metadata.namespace@));
        }
        if names@.len() > 0 {
            assert(is_namespace_view(views@[0], pods@));
        }
    }
    names
}

/// Whether the node is ready, by the last of its `Ready` conditions; `None`
/// where it has none.
pub open spec fn readiness(conditions: Seq<NodeCondition>) -> Option<bool>
    decreases conditions.len(),
{
    if conditions.len() == 0 {
        None
    } else if conditions.last().condition_type@ == "Ready"@ {
        Some(conditions.last().status@ == "True"@)
    } else {
        readiness(conditions.drop_last())
    }
}

/// The word for a node's readiness.
pub open spec fn readiness_text(ready: Option<bool>) -> Seq<char> {
    match ready {
        None => "Unknown"@,
        Some(true) => "Ready"@,
        Some(false) => "NotReady"@,
    }
}

/// The badge of a node's readiness.
pub open spec fn readiness_class(ready: Option<bool>) -> Seq<char> {
    match ready {
        None => "badge-warning"@,
        Some(true) => "badge-success"@,
        Some(false) => "badge-error"@,
    }
}

/// The value under `key`, or the empty text.
pub open spec fn value_or_empty(map: Map<Seq<char>, Seq<char>>, key: Seq<char>) -> Seq<char> {
    if map.contains_key(key) {
        map[key]
    } else {
        Seq::empty()
    }
}

/// A memory capacity for people: a plain number of bytes is rendered as a
/// byte count, anything else is shown as it is.
pub open spec fn memory_text(raw: Seq<char>) -> Seq<char> {
    match integer_of(raw) {
        Some(bytes) => bytes_text(bytes),
        None => raw,
    }
}

fn get_or_empty(map: &StringMap, key: &str) -> (value: String)
    ensures
        value@ == value_or_empty(map@, key@),
{
    match map.get(key) {
        Some(v) => v.clone(),
        None => String::new(),
    }
}

/// Whether the node is ready, by the last of its `Ready` conditions.
pub fn node_readiness(conditions: &Vec<NodeCondition>) -> (ready: Option<bool>)
    ensures
        ready == readiness(conditions@),
{
    let mut ready: Option<bool> = None;
    let mut i: usize = 0;
    while i < conditions.len()
        invariant
            i <= conditions@.len(),
            ready == readiness(conditions@.take(i as int)),
        decreases conditions@.len() - i,
    {
        proof {
            assert(conditions@.take(i + 1).drop_last() =~= conditions@.take(i as int));
        }
        if same_text(conditions[i].condition_type.as_str(), "Ready") {
            ready = Some(same_text(conditions[i].status.as_str(), "True"));
        }
        i = i + 1;
    }
    assert(conditions@.take(i as int) =~= conditions@);
    ready
}

/// The row of one node.
pub fn build_node_view(node: &Node) -> (nv: NodeView)
    ensures
        nv.name == node.metadata.name,
        nv.architecture == node.status.node_info.architecture,
        nv.status@ == readiness_text(readiness(node.status.conditions@)),
        nv.status_class@ == readiness_class(readiness(node.status.conditions@)),
        nv.cpu@ == value_or_empty(node.status.capacity@, "cpu"@),
        nv.memory@ == if node.status.capacity@.contains_key("memory"@) {
            memory_text(node.status.capacity@["memory"@])
        } else {
            Seq::<char>::empty()
        },
        nv.pods@ == value_or_empty(node.status.allocatable@, "pods"@),
        nv.uptime@ == value_or_empty(node.metadata.annotation_map(), "mkube.io/uptime"@),
        nv.board@ == value_or_empty(node.metadata.annotation_map(), "mkube.io/board"@),
        nv.cpu_load@ == value_or_empty(node.metadata.annotation_map(), "mkube.io/cpu-load"@),
{
    let (status, status_class) = match node_readiness(&node.status.conditions) {
        None => (String::from_str("Unknown"), String::from_str("badge-warning")),
        Some(true) => (String::from_str("Ready"), String::from_str("badge-success")),
        Some(false) => (String::from_str("NotReady"), String::from_str("badge-error")),
    };
    let memory = match node.status.capacity.get("memory") {
        Some(mem) => match parse_i64(mem.as_str()) {
            Some(bytes) => human_bytes(bytes),
            None => mem.clone(),
        },
        None => String::new(),
    };
    let (uptime, board, cpu_load) = match &node.metadata.annotations {
        Some(annotations) => (
            get_or_empty(annotations, "mkube.io/uptime"),
            get_or_empty(annotations, "mkube.io/board"),
            get_or_empty(annotations, "mkube.io/cpu-load"),
        ),
        None => (String::new(), String::new(), String::new()),
    };
    NodeView {
        name: node.metadata.name.clone(),
        status,
        status_class,
        cpu: get_or_empty(&node.status.capacity, "cpu"),
        memory,
        pods: get_or_empty(&node.status.allocatable, "pods"),
        uptime,
        architecture: node.status.node_info.architecture.clone(),
        board,
        cpu_load,
    }
}

/// The state of a container in one word, and the reason that goes with it.
/// A running container is `Running`, whatever else its state holds; then
/// come waiting and terminated, each with its reason.
pub open spec fn state_of(cs: ContainerStatus) -> (Seq<char>, Seq<char>) {
    if cs.state.running is Some {
        ("Running"@, Seq::empty())
    } else if cs.state.waiting is Some {
        ("Waiting"@, cs.state.waiting->Some_0.reason@)
    } else if cs.state.terminated is Some {
        ("Terminated"@, cs.state.terminated->Some_0.reason@)
    } else {
        ("Unknown"@, Seq::empty())
    }
}

/// `view` is the row of the container status `cs`.
pub open spec fn is_container_view(view: ContainerView, cs: ContainerStatus) -> bool {
    &&& view.name == cs.name
    &&& view.image == cs.image
    &&& view.ready == cs.ready
    &&& view.state@ == state_of(cs).0
    &&& view.reason@ == state_of(cs).1
}

fn build_container_view(cs: &ContainerStatus) -> (view: ContainerView)
    ensures
        is_container_view(view, *cs),
{
    let mut state = String::from_str("Unknown");
    let mut reason = String::new();
    if cs.state.running.is_some() {
        state = String::from_str("Running");
    } else {
        match &cs.state.waiting {
            Some(w) => {
                state = String::from_str("Waiting");
                reason = w.reason.clone();
            },
            None => match &cs.state.terminated {
                Some(t) => {
                    state = String::from_str("Terminated");
                    reason = t.reason.clone();
                },
                None => {},
            },
        }
    }
    ContainerView { name: cs.name.clone(), image: cs.image.clone(), state, ready: cs.ready, reason }
}

/// One row for each container status of the pod, in order.
pub fn build_container_views(pod: &Pod) -> (views: Vec<ContainerView>)
    ensures
        views@.len() == pod.status.container_statuses@.len(),
        forall|i: int|
            0 <= i < views@.len() ==> is_container_view(
                #[trigger] views@[i],
                pod.status.container_statuses@[i],
            ),
{
    let mut views: Vec<ContainerView> = Vec::new();
    let mut i: usize = 0;
    while i < pod.status.container_statuses.len()
        invariant
            i <= pod.status.container_statuses@.len(),
            views@.len() == i,
            forall|k: int|
                0 <= k < i ==> is_container_view(
                    #[trigger] views@[k],
                    pod.status.container_statuses@[k],
                ),
        decreases pod.status.container_statuses@.len() - i,
    {
        views.push(build_container_view(&pod.status.container_statuses[i]));
        i = i + 1;
    }
    views
}

/// The badge of a container state.
pub open spec fn state_class(state: Seq<char>) -> Seq<char> {
    if state == "Running"@ {
        "badge-success"@
    } else if state == "Waiting"@ {
        "badge-warning"@
    } else if state == "Terminated"@ {
        "badge-error"@
    } else {
        "badge-info"@
    }
}

/// Status `i` is the first status of a container called `name`.
pub open spec fn first_status_named(statuses: Seq<ContainerStatus>, name: Seq<char>, i: int)
    -> bool {
    &&& 0 <= i < statuses.len()
    &&& statuses[i].name@ == name
    &&& forall|k: int| 0 <= k < i ==> (#[trigger] statuses[k]).name@ != name
}

/// Container `i` is the first container called `name`.
pub open spec fn first_container_named(containers: Seq<Container>, name: Seq<char>, i: int)
    -> bool {
    &&& 0 <= i < containers.len()
    &&& containers[i].name@ == name
    &&& forall|k: int| 0 <= k < i ==> (#[trigger] containers[k]).name@ != name
}

/// `views` holds the rows of `mounts`, one for one.
pub open spec fn are_mount_views(views: Seq<VolumeView>, mounts: Seq<VolumeMount>) -> bool {
    &&& views.len() == mounts.len()
    &&& forall|k: int|
        0 <= k < views.len() ==> (#[trigger] views[k]).name == mounts[k].name
            && views[k].mount_path == mounts[k].mount_path
}

/// `view` is the page of the container called `view.name` of `pod`: what
/// its first status of that name says, with the mounts of the first
/// container of that name.
pub open spec fn is_container_detail(view: ContainerDetailView, pod: Pod, status: int) -> bool {
    &&& first_status_named(pod.status.container_statuses@, view.name@, status)
    &&& view.pod_name == pod.metadata.name
    &&& view.namespace == pod.metadata.namespace
    &&& view.image == pod.status.container_statuses@[status].image
    &&& view.ready == pod.status.container_statuses@[status].ready
    &&& view.state@ == state_of(pod.status.container_statuses@[status]).0
    &&& view.state_class@ == state_class(view.state@)
    &&& (exists|c: int|
        first_container_named(pod.spec.containers@, view.name@, c) && are_mount_views(
            view.volume_mounts@,
            pod.spec.containers@[c].volume_mounts@,
        )) || (view.volume_mounts@.len() == 0 && forall|c: int|
        0 <= c < pod.spec.containers@.len() ==> (#[trigger] pod.spec.containers@[c]).name@
            != view.name@)
}

fn container_state_class(state: &str) -> (class: String)
    ensures
        class@ == state_class(state@),
{
    if same_text(state, "Running") {
        String::from_str("badge-success")
    } else if same_text(state, "Waiting") {
        String::from_str("badge-warning")
    } else if same_text(state, "Terminated") {
        String::from_str("badge-error")
    } else {
        String::from_str("badge-info")
    }
}

fn mount_views(mounts: &Vec<VolumeMount>) -> (views: Vec<VolumeView>)
    ensures
        are_mount_views(views@, mounts@),
{
    let mut views: Vec<VolumeView> = Vec::new();
    let mut m: usize = 0;
    while m < mounts.len()
        invariant
            m <= mounts@.len(),
            are_mount_views(views@, mounts@.take(m as int)),
        decreases mounts@.len() - m,
    {
        views.push(
            VolumeView { name: mounts[m].name.clone(), mount_path: mounts[m].mount_path.clone() },
        );
        m = m + 1;
    }
    assert(mounts@.take(m as int) =~= mounts@);
    views
}

fn find_status(statuses: &Vec<ContainerStatus>, name: &str) -> (found: Option<usize>)
    ensures
        match found {
            Some(i) => first_status_named(statuses@, name@, i as int),
            None => forall|k: int|
                0 <= k < statuses@.len() ==> (#[trigger] statuses@[k]).name@ != name@,
        },
{
    let mut i: usize = 0;
    while i < statuses.len()
        invariant
            i <= statuses@.len(),
            forall|k: int| 0 <= k < i ==> (#[trigger] statuses@[k]).name@ != name@,
        decreases statuses@.len() - i,
    {
        if same_text(statuses[i].name.as_str(), name) {
            return Some(i);
        }
        i = i + 1;
    }
    None
}

fn find_container(containers: &Vec<Container>, name: &str) -> (found: Option<usize>)
    ensures
        match found {
            Some(i) => first_container_named(containers@, name@, i as int),
            None => forall|k: int|
                0 <= k < containers@.len() ==> (#[trigger] containers@[k]).name@ != name@,
        },
{
    let mut i: usize = 0;
    while i < containers.len()
        invariant
            i <= containers@.len(),
            forall|k: int| 0 <= k < i ==> (#[trigger] containers@[k]).name@ != name@,
        decreases containers@.len() - i,
    {
        if same_text(containers[i].name.as_str(), name) {
            return Some(i);
        }
        i = i + 1;
    }
    None
}

/// The page of the container `name` of `pod`; `None` where the pod has no
/// status for a container of that name.
pub fn build_container_detail_view(pod: &Pod, name: &str) -> (detail: Option<ContainerDetailView>)
    ensures
        match detail {
            Some(view) => view.name@ == name@ && exists|i: int| #[trigger]
                is_container_detail(view, *pod, i),
            None => forall|i: int|
                0 <= i < pod.status.container_statuses@.len() ==> (
                #[trigger] pod.status.container_statuses@[i]).name@ != name@,
        },
{
    let i = match find_status(&pod.status.container_statuses, name) {
        Some(i) => i,
        None => {
            return None;
        },
    };
    let found = find_container(&pod.spec.containers, name);
    let volume_mounts = match found {
        Some(c) => mount_views(&pod.spec.containers[c].volume_mounts),
        None => Vec::new(),
    };
    let row = build_container_view(&pod.status.container_statuses[i]);
    let view = ContainerDetailView {
        name: row.name,
        pod_name: pod.metadata.name.clone(),
        namespace: pod.metadata.namespace.clone(),
        image: row.image,
        state_class: container_state_class(row.state.as_str()),
        state: row.state,
        ready: row.ready,
        volume_mounts,
    };
    proof {
        match found {
            Some(c) => {
                assert(first_container_named(pod.spec.containers@, view.name@, c as int));
            },
            None => {},
        }
        assert(is_container_detail(view, *pod, i as int));
        assert(view.name@ == name@);
        assert(exists|k: int| #[trigger] is_container_detail(view, *pod, k));
    }
    Some(view)
}

/// A volume mount of a pod: which container, and which of its mounts.
pub struct MountAt {
    pub container: int,
    pub mount: int,
}

/// The places of all volume mounts of a pod: container after container, and
/// within a container in the order of its mounts.
pub open spec fn mount_places(pod: Pod, containers: int) -> Seq<MountAt>
    decreases containers,
{
    if containers <= 0 {
        Seq::empty()
    } else {
        let c = containers - 1;
        mount_places(pod, c) + Seq::new(
            pod.spec.containers@[c].volume_mounts@.len(),
            |m: int| MountAt { container: c, mount: m },
        )
    }
}

/// `views` holds one row for each volume mount of the first `containers`
/// containers of `pod`, in the order of `mount_places`.
pub open spec fn are_volume_views(views: Seq<VolumeView>, pod: Pod, containers: int) -> bool {
    &&& views.len() == mount_places(pod, containers).len()
    &&& forall|k: int|
        0 <= k < views.len() ==> {
            let at = mount_places(pod, containers)[k];
            &&& (#[trigger] views[k]).name == pod.spec.containers@[at.container].volume_mounts@[at.mount].name
            &&& views[k].mount_path
                == pod.spec.containers@[at.container].volume_mounts@[at.mount].mount_path
        }
}

/// One row for each volume mount of each container of the pod.
pub fn build_volume_views(pod: &Pod) -> (views: Vec<VolumeView>)
    ensures
        are_volume_views(views@, *pod, pod.spec.containers@.len() as int),
{
    let mut views: Vec<VolumeView> = Vec::new();
    let mut c: usize = 0;
    while c < pod.spec.containers.len()
        invariant
            c <= pod.spec.containers@.len(),
            are_volume_views(views@, *pod, c as int),
        decreases pod.spec.containers@.len() - c,
    {
        let ghost base = views@;
        let mounts = &pod.spec.containers[c].volume_mounts;
        let mut m: usize = 0;
        while m < mounts.len()
            invariant
                c < pod.spec.containers@.len(),
                mounts == &pod.spec.containers@[c as int].volume_mounts,
                m <= mounts@.len(),
                views@.len() == base.len() + m,
                base.len() == mount_places(*pod, c as int).len(),
                forall|k: int| 0 <= k < base.len() ==> views@[k] == base[k],
                forall|j: int|
                    0 <= j < m ==> {
                        &&& (#[trigger] views@[base.len() + j]).name == mounts@[j].name
                        &&& views@[base.len() + j].mount_path == mounts@[j].mount_path
                    },
            decreases mounts@.len() - m,
        {
            views.push(
                VolumeView {
                    name: mounts[m].name.clone(),
                    mount_path: mounts[m].mount_path.clone(),
                },
            );
            m = m + 1;
        }
        proof {
            let places = mount_places(*pod, c + 1);
            assert forall|k: int| 0 <= k < views@.len() implies {
                let at = places[k];
                &&& (#[trigger] views@[k]).name
                    == pod.spec.containers@[at.container].volume_mounts@[at.mount].name
                &&& views@[k].mount_path
                    == pod.spec.containers@[at.container].volume_mounts@[at.mount].mount_path
            } by {
                if k < base.len() {
                    assert(views@[k] == base[k]);
                    assert(places[k] == mount_places(*pod, c as int)[k]);
                } else {
                    let j = k - base.len();
                    assert(views@[base.len() + j].name == mounts@[j].name);
                }
            }
        }
        c = c + 1;
    }
    views
}

/// The query of the pods page.
#[derive(Debug, Clone, Default)]
pub struct PodQuery {
    pub namespace: Option<String>,
}

impl PodQuery {
    /// The namespace to show; empty for all of them.
    pub fn filter(&self) -> (ns: String)
        ensures
            ns@ == match self.namespace {
                Some(n) => n@,
                None => Seq::<char>::empty(),
            },
    {
        match &self.namespace {
            Some(n) => n.clone(),
            None => String::new(),
        }
    }
}

/// One repository of the container registry with its tags.
#[derive(Debug, Clone)]
pub struct RepoView {
    pub name: String,
    pub tags: Vec<String>,
}

impl RepoView {
    /// The row of the repository `name`; one whose tags could not be had is
    /// shown without tags.
    pub fn new(name: String, tags: Option<Vec<String>>) -> (repo: Self)
        ensures
            repo.name == name,
            match tags {
                Some(t) => repo.tags == t,
                None => repo.tags@.len() == 0,
            },
    {
        match tags {
            Some(t) => RepoView { name, tags: t },
            None => RepoView { name, tags: Vec::new() },
        }
    }
}

} // verus!
