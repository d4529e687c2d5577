//! What is sent to the cluster for an install: which resources are listed, applied and
//! deleted, and where. The cluster itself is reached from outside this library; here are the
//! decisions, from what discovery has found to the calls to make.

use crate::document::{string_at, string_under, sub_mapping};
use crate::installation::{InstallRef, InstallResources};
use crate::text::{chars_of, first_index_of, index_of, lemma_first_index_bounds, text_of_range};
use crate::yaml::{mapping_entries, mapping_get, shape_of, Node, Shape};
use vstd::prelude::*;
use vstd::string::*;

verus! {

/// Whether the objects of a kind live in a namespace.
#[derive(Clone, Copy, Debug, PartialEq, Eq, Structural)]
pub enum Scope {
    Cluster,
    Namespaced,
}

/// The type fields of a resource.
#[derive(Clone, Debug)]
pub struct TypeMeta {
    pub api_version: String,
    pub kind: String,
}

/// What the tracker reads of a resource: its type fields, where it has both, and its names.
#[derive(Clone, Debug)]
pub struct ResourceHead {
    pub types: Option<TypeMeta>,
    pub name: Option<String>,
    pub generate_name: Option<String>,
    pub namespace: Option<String>,
}

/// A kind of resource that discovery has found on the cluster.
#[derive(Clone, Debug)]
pub struct DiscoveredKind {
    pub group: String,
    pub version: String,
    pub kind: String,
    pub scope: Scope,
    /// The operations that the cluster offers on this kind.
    pub operations: Vec<String>,
}

/// Where a call for one resource goes.
#[derive(Debug)]
pub enum ApiTarget {
    /// The kind is cluster-scoped.
    Cluster,
    /// The namespace that the resource names.
    Namespaced(String),
    /// The client's default namespace, for a namespaced resource that names none.
    DefaultNamespace,
}

/// One call for one resource: apply it or delete it.
#[derive(Debug)]
pub struct ClusterCall {
    /// Index of the resource among those given.
    pub resource: usize,
    /// Index of its kind among those discovered.
    pub kind: usize,
    pub target: ApiTarget,
    /// The name under which the resource is addressed.
    pub name: String,
}

/// The calls to make, in order, and the resource at which to stop with an error after them.
#[derive(Debug)]
pub struct ClusterPlan {
    pub calls: Vec<ClusterCall>,
    /// Index of the first resource without type fields, where that is an error.
    pub failure: Option<usize>,
}

/// One list request: a kind, the namespace to list in (none for a cluster-scoped kind), and
/// the label selector.
#[derive(Debug)]
pub struct ListQuery {
    pub kind: usize,
    pub namespace: Option<String>,
    pub selector: String,
}

pub struct TypeMetaView {
    pub api_version: Seq<char>,
    pub kind: Seq<char>,
}

pub struct HeadView {
    pub types: Option<TypeMetaView>,
    pub name: Option<Seq<char>>,
    pub generate_name: Option<Seq<char>>,
    pub namespace: Option<Seq<char>>,
}

pub struct KindView {
    pub group: Seq<char>,
    pub version: Seq<char>,
    pub kind: Seq<char>,
    pub scope: Scope,
    pub operations: Seq<Seq<char>>,
}

pub enum TargetView {
    Cluster,
    Namespaced(Seq<char>),
    DefaultNamespace,
}

pub struct CallView {
    pub resource: int,
    pub kind: int,
    pub target: TargetView,
    pub name: Seq<char>,
}

pub struct PlanView {
    pub calls: Seq<CallView>,
    pub failure: Option<int>,
}

pub struct QueryView {
    pub kind: int,
    pub namespace: Option<Seq<char>>,
    pub selector: Seq<char>,
}

pub open spec fn opt_text(s: Option<String>) -> Option<Seq<char>> {
    match s {
        None => None,
        Some(t) => Some(t@),
    }
}

impl View for TypeMeta {
    type V = TypeMetaView;

    open spec fn view(&self) -> TypeMetaView {
        TypeMetaView { api_version: self.api_version@, kind: self.kind@ }
    }
}

impl View for ResourceHead {
    type V = HeadView;

    open spec fn view(&self) -> HeadView {
        HeadView {
            types: match self.types {
                None => None,
                Some(t) => Some(t@),
            },
            name: opt_text(self.name),
            generate_name: opt_text(self.generate_name),
            namespace: opt_text(self.namespace),
        }
    }
}

impl View for DiscoveredKind {
    type V = KindView;

    open spec fn view(&self) -> KindView {
        KindView {
            group: self.group@,
            version: self.version@,
            kind: self.kind@,
            scope: self.scope,
            operations: Seq::new(self.operations@.len(), |i: int| self.operations@[i]@),
        }
    }
}

impl View for ApiTarget {
    type V = TargetView;

    open spec fn view(&self) -> TargetView {
        match self {
            ApiTarget::Cluster => TargetView::Cluster,
            ApiTarget::Namespaced(ns) => TargetView::Namespaced(ns@),
            ApiTarget::DefaultNamespace => TargetView::DefaultNamespace,
        }
    }
}

impl View for ClusterCall {
    type V = CallView;

    open spec fn view(&self) -> CallView {
        CallView {
            resource: self.resource as int,
            kind: self.kind as int,
            target: self.target@,
            name: self.name@,
        }
    }
}

impl View for ClusterPlan {
    type V = PlanView;

    open spec fn view(&self) -> PlanView {
        PlanView {
            calls: Seq::new(self.calls@.len(), |i: int| self.calls@[i]@),
            failure: match self.failure {
                None => None,
                Some(i) => Some(i as int),
            },
        }
    }
}

impl View for ListQuery {
    type V = QueryView;

    open spec fn view(&self) -> QueryView {
        QueryView {
            kind: self.kind as int,
            namespace: opt_text(self.namespace),
            selector: self.selector@,
        }
    }
}

pub open spec fn head_views(heads: Seq<ResourceHead>) -> Seq<HeadView> {
    Seq::new(heads.len(), |i: int| heads[i]@)
}

pub open spec fn kind_views(kinds: Seq<DiscoveredKind>) -> Seq<KindView> {
    Seq::new(kinds.len(), |i: int| kinds[i]@)
}

pub open spec fn query_views(queries: Seq<ListQuery>) -> Seq<QueryView> {
    Seq::new(queries.len(), |i: int| queries[i]@)
}

pub open spec fn text_views(texts: Seq<String>) -> Seq<Seq<char>> {
    Seq::new(texts.len(), |i: int| texts[i]@)
}

/// The API group of an `apiVersion`: what stands before its first slash, nothing where it has
/// no slash.
pub open spec fn group_of(api_version: Seq<char>) -> Seq<char> {
    let i = first_index_of(api_version, '/');
    if i == api_version.len() {
        Seq::empty()
    } else {
        api_version.subrange(0, i)
    }
}

/// The version of an `apiVersion`: what stands behind its first slash, all of it where it has
/// no slash.
pub open spec fn version_of(api_version: Seq<char>) -> Seq<char> {
    let i = first_index_of(api_version, '/');
    if i == api_version.len() {
        api_version
    } else {
        api_version.subrange(i + 1, api_version.len() as int)
    }
}

/// Whether a discovered kind is the kind that the type fields name.
pub open spec fn is_kind(found: KindView, types: TypeMetaView) -> bool {
    found.group == group_of(types.api_version) && found.version == version_of(types.api_version)
        && found.kind == types.kind
}

/// The index of the first discovered kind that the type fields name.
pub open spec fn resolved(kinds: Seq<KindView>, types: TypeMetaView) -> Option<int>
    decreases kinds.len(),
{
    if kinds.len() == 0 {
        None
    } else {
        match resolved(kinds.drop_last(), types) {
            Some(k) => Some(k),
            None => if is_kind(kinds.last(), types) {
                Some(kinds.len() - 1)
            } else {
                None
            },
        }
    }
}

/// The name under which a resource is addressed: its name, else the name it is to be
/// generated from, else nothing.
pub open spec fn name_any(head: HeadView) -> Seq<char> {
    match head.name {
        Some(n) => n,
        None => match head.generate_name {
            Some(g) => g,
            None => Seq::empty(),
        },
    }
}

/// Where a call goes: by the scope of the kind first, then by the namespace of the resource.
pub open spec fn target_of(scope: Scope, namespace: Option<Seq<char>>) -> TargetView {
    match scope {
        Scope::Cluster => TargetView::Cluster,
        Scope::Namespaced => match namespace {
            Some(ns) => TargetView::Namespaced(ns),
            None => TargetView::DefaultNamespace,
        },
    }
}

/// The calls for `heads`, in their order. A resource whose kind discovery has not found gets
/// no call. A resource without type fields stops the plan with a failure where `strict`, and
/// gets no call where not.
pub open spec fn planned(heads: Seq<HeadView>, kinds: Seq<KindView>, strict: bool) -> PlanView
    decreases heads.len(),
{
    if heads.len() == 0 {
        PlanView { calls: Seq::empty(), failure: None }
    } else {
        let done = planned(heads.drop_last(), kinds, strict);
        let i = heads.len() - 1;
        let head = heads.last();
        if done.failure is Some {
            done
        } else {
            match head.types {
                None => if strict {
                    PlanView { calls: done.calls, failure: Some(i) }
                } else {
                    done
                },
                Some(types) => match resolved(kinds, types) {
                    None => done,
                    Some(k) => PlanView {
                        calls: done.calls.push(
                            CallView {
                                resource: i,
                                kind: k,
                                target: target_of(kinds[k].scope, head.namespace),
                                name: name_any(head),
                            },
                        ),
                        failure: None,
                    },
                },
            }
        }
    }
}

/// Whether the cluster offers the operation on the kind.
pub open spec fn supports(kind: KindView, operation: Seq<char>) -> bool {
    kind.operations.contains(operation)
}

/// The list requests for one kind: one for a cluster-scoped kind, one in each namespace for
/// a namespaced kind.
pub open spec fn kind_queries(
    k: int,
    scope: Scope,
    namespaces: Seq<Seq<char>>,
    selector: Seq<char>,
) -> Seq<QueryView> {
    match scope {
        Scope::Cluster => seq![QueryView { kind: k, namespace: None, selector: selector }],
        Scope::Namespaced => Seq::new(
            namespaces.len(),
            |j: int| QueryView { kind: k, namespace: Some(namespaces[j]), selector: selector },
        ),
    }
}

/// The list requests for all kinds that can be listed, kind by kind in the order given.
pub open spec fn list_plan(
    kinds: Seq<KindView>,
    namespaces: Seq<Seq<char>>,
    selector: Seq<char>,
) -> Seq<QueryView>
    decreases kinds.len(),
{
    if kinds.len() == 0 {
        Seq::empty()
    } else {
        let done = list_plan(kinds.drop_last(), namespaces, selector);
        let k = kinds.len() - 1;
        if supports(kinds.last(), "list"@) {
            done + kind_queries(k, kinds.last().scope, namespaces, selector)
        } else {
            done
        }
    }
}

/// What the tracker reads of a manifest: `apiVersion` and `kind` where both are texts, and
/// the names under `metadata`, each where it is a text.
pub open spec fn head_of_entries(entries: Seq<(Node, Node)>) -> HeadView {
    let metadata = match sub_mapping(entries, "metadata"@) {
        None => Seq::empty(),
        Some(m) => m,
    };
    HeadView {
        types: match (string_at(entries, "apiVersion"@), string_at(entries, "kind"@)) {
            (Some(a), Some(k)) => Some(TypeMetaView { api_version: a, kind: k }),
            _ => None,
        },
        name: string_at(metadata, "name"@),
        generate_name: string_at(metadata, "generateName"@),
        namespace: string_at(metadata, "namespace"@),
    }
}

pub open spec fn heads_of_resources(resources: Seq<Seq<(Node, Node)>>) -> Seq<HeadView> {
    Seq::new(resources.len(), |i: int| head_of_entries(resources[i]))
}

impl DiscoveredKind {
    /// Whether the cluster offers the operation on this kind.
    pub fn supports_operation(&self, operation: &str) -> (r: bool)
        ensures
            r == supports(self@, operation@),
    {
        let wanted = operation.to_owned();
        let mut i: usize = 0;
        while i < self.operations.len()
            invariant
                i <= self.operations.len(),
                wanted@ == operation@,
                forall|j: int| 0 <= j < i ==> self.operations@[j]@ != operation@,
            decreases self.operations.len() - i,
        {
            if self.operations[i] == wanted {
                assert(self@.operations[i as int] == operation@);
                return true;
            }
            i = i + 1;
        }
        assert forall|j: int| 0 <= j < self@.operations.len() implies self@.operations[j]
            != operation@ by {
            assert(self@.operations[j] == self.operations@[j]@);
        }
        false
    }
}

/// The API group and the version of an `apiVersion`.
pub fn split_api_version(api_version: &str) -> (r: (String, String))
    ensures
        r.0@ == group_of(api_version@),
        r.1@ == version_of(api_version@),
{
    let chars = chars_of(api_version);
    let i = index_of(&chars, '/');
    proof {
        lemma_first_index_bounds(chars@, '/');
    }
    if i == chars.len() {
        let version = text_of_range(&chars, 0, chars.len());
        assert(chars@.subrange(0, chars.len() as int) =~= chars@);
        (String::new(), version)
    } else {
        (text_of_range(&chars, 0, i), text_of_range(&chars, i + 1, chars.len()))
    }
}

/// Looks the type fields up among the kinds that discovery has found.
pub fn resolve(kinds: &Vec<DiscoveredKind>, types: &TypeMeta) -> (r: Option<usize>)
    ensures
        match r {
            Some(k) => resolved(kind_views(kinds@), types@) == Some(k as int) && k < kinds.len(),
            None => resolved(kind_views(kinds@), types@) is None,
        },
{
    let (group, version) = split_api_version(types.api_version.as_str());
    let mut i: usize = 0;
    while i < kinds.len()
        invariant
            i <= kinds.len(),
            group@ == group_of(types@.api_version),
            version@ == version_of(types@.api_version),
            resolved(kind_views(kinds@).subrange(0, i as int), types@) is None,
        decreases kinds.len() - i,
    {
        proof {
            let before = kind_views(kinds@).subrange(0, i as int);
            let after = kind_views(kinds@).subrange(0, i + 1);
            assert(after.drop_last() =~= before);
            assert(after.last() == kinds@[i as int]@);
        }
        if kinds[i].group == group && kinds[i].version == version && kinds[i].kind == types.kind {
            proof {
                lemma_resolved_stays(kind_views(kinds@), types@, i as int);
            }
            return Some(i);
        }
        i = i + 1;
    }
    assert(kind_views(kinds@).subrange(0, kinds.len() as int) =~= kind_views(kinds@));
    None
}

/// A kind found among the first stays the one found among all.
pub(crate) proof fn lemma_resolved_stays(kinds: Seq<KindView>, types: TypeMetaView, i: int)
    requires
        0 <= i < kinds.len(),
        resolved(kinds.subrange(0, i + 1), types) is Some,
    ensures
        resolved(kinds, types) == resolved(kinds.subrange(0, i + 1), types),
    decreases kinds.len() - i,
{
    if i + 1 == kinds.len() {
        assert(kinds.subrange(0, i + 1) =~= kinds);
    } else {
        assert(kinds.subrange(0, i + 2).drop_last() =~= kinds.subrange(0, i + 1));
        lemma_resolved_stays(kinds, types, i + 1);
    }
}

impl ResourceHead {
    /// The name under which the resource is addressed.
    pub fn name_any(&self) -> (r: String)
        ensures
            r@ == name_any(self@),
    {
        match &self.name {
            Some(n) => n.clone(),
            None => match &self.generate_name {
                Some(g) => g.clone(),
                None => String::new(),
            },
        }
    }

    /// Where a call for this resource goes, for a kind of the given scope.
    pub fn target(&self, scope: Scope) -> (r: ApiTarget)
        ensures
            r@ == target_of(scope, self@.namespace),
    {
        match scope {
            Scope::Cluster => ApiTarget::Cluster,
            Scope::Namespaced => match &self.namespace {
                Some(ns) => ApiTarget::Namespaced(ns.clone()),
                None => ApiTarget::DefaultNamespace,
            },
        }
    }

    /// Reads the head of a manifest.
    pub fn of_manifest(manifest: &serde_yaml::Mapping) -> (r: ResourceHead)
        ensures
            r@ == head_of_entries(mapping_entries(*manifest)),
    {
        let api_version = string_under(manifest, "apiVersion");
        let kind = string_under(manifest, "kind");
        let types = match (api_version, kind) {
            (Some(a), Some(k)) => Some(TypeMeta { api_version: a, kind: k }),
            _ => None,
        };
        let metadata = match mapping_get(manifest, "metadata") {
            None => None,
            Some(v) => match shape_of(&v) {
                Shape::Dict(m) => Some(m),
                _ => None,
            },
        };
        match metadata {
            None => ResourceHead { types, name: None, generate_name: None, namespace: None },
            Some(m) => ResourceHead {
                types,
                name: string_under(&m, "name"),
                generate_name: string_under(&m, "generateName"),
                namespace: string_under(&m, "namespace"),
            },
        }
    }
}

/// The calls for the resources, in their order.
pub fn plan_calls(heads: &Vec<ResourceHead>, kinds: &Vec<DiscoveredKind>, strict: bool) -> (r:
    ClusterPlan)
    ensures
        r@ == planned(head_views(heads@), kind_views(kinds@), strict),
{
    let mut plan = ClusterPlan { calls: Vec::new(), failure: None };
    assert(plan@.calls =~= Seq::empty());
    let mut i: usize = 0;
    while i < heads.len()
        invariant
            i <= heads.len(),
            plan@ == planned(head_views(heads@).subrange(0, i as int), kind_views(kinds@), strict),
            plan.failure is None,
        decreases heads.len() - i,
    {
        let ghost before = head_views(heads@).subrange(0, i as int);
        let ghost after = head_views(heads@).subrange(0, i + 1);
        let ghost had = plan@;
        proof {
            assert(after.drop_last() =~= before);
            assert(after.last() == heads@[i as int]@);
        }
        match &heads[i].types {
            None => {
                if strict {
                    plan.failure = Some(i);
                    proof {
                        assert(plan@.calls =~= had.calls);
                        lemma_failure_stays(
                            head_views(heads@),
                            kind_views(kinds@),
                            strict,
                            i as int,
                        );
                    }
                    return plan;
                }
            },
            Some(types) => {
                match resolve(kinds, types) {
                    None => {},
                    Some(k) => {
                        let call = ClusterCall {
                            resource: i,
                            kind: k,
                            target: heads[i].target(kinds[k].scope),
                            name: heads[i].name_any(),
                        };
                        plan.calls.push(call);
                        proof {
                            assert(kind_views(kinds@)[k as int] == kinds@[k as int]@);
                            assert(plan@.calls =~= had.calls.push(call@));
                        }
                    },
                }
            },
        }
        i = i + 1;
    }
    assert(head_views(heads@).subrange(0, heads.len() as int) =~= head_views(heads@));
    plan
}

/// A failure among the first resources ends the plan: what follows adds nothing.
pub(crate) proof fn lemma_failure_stays(heads: Seq<HeadView>, kinds: Seq<KindView>, strict: bool, i: int)
    requires
        0 <= i < heads.len(),
        planned(heads.subrange(0, i + 1), kinds, strict).failure is Some,
    ensures
        planned(heads, kinds, strict) == planned(heads.subrange(0, i + 1), kinds, strict),
    decreases heads.len() - i,
{
    if i + 1 == heads.len() {
        assert(heads.subrange(0, i + 1) =~= heads);
    } else {
        assert(heads.subrange(0, i + 2).drop_last() =~= heads.subrange(0, i + 1));
        lemma_failure_stays(heads, kinds, strict, i + 1);
    }
}

impl InstallResources {
    /// What the tracker reads of each manifest, in order.
    pub fn heads(&self) -> (r: Vec<ResourceHead>)
        ensures
            head_views(r@) == heads_of_resources(self@),
    {
        let mut heads: Vec<ResourceHead> = Vec::new();
        let mut i: usize = 0;
        assert(head_views(heads@) =~= heads_of_resources(self@).subrange(0, 0));
        while i < self.resources.len()
            invariant
                i <= self.resources.len(),
                head_views(heads@) == heads_of_resources(self@).subrange(0, i as int),
            decreases self.resources.len() - i,
        {
            let ghost had = head_views(heads@);
            let head = ResourceHead::of_manifest(&self.resources[i]);
            heads.push(head);
            proof {
                assert(head_views(heads@) =~= had.push(head@));
                assert(had.push(head@) =~= heads_of_resources(self@).subrange(0, i + 1));
            }
            i = i + 1;
        }
        assert(heads_of_resources(self@).subrange(0, self.resources.len() as int)
            =~= heads_of_resources(self@));
        heads
    }
}

impl InstallRef {
    /// The list requests that find the resources of this install: for every kind that can be
    /// listed, in the order given, one request for a cluster-scoped kind and one in each
    /// namespace for a namespaced kind, all with the label selector of the install.
    pub fn get_resources(&self, kinds: &Vec<DiscoveredKind>, namespaces: &Vec<String>) -> (r: Vec<
        ListQuery,
    >)
        ensures
            query_views(r@) == list_plan(
                kind_views(kinds@),
                text_views(namespaces@),
                crate::installation::selector_text(
                    self.name@,
                    crate::installation::version_view(self.version),
                ),
            ),
    {
        let selector = self.label_selector();
        let mut queries: Vec<ListQuery> = Vec::new();
        assert(query_views(queries@) =~= Seq::empty());
        let mut k: usize = 0;
        while k < kinds.len()
            invariant
                k <= kinds.len(),
                query_views(queries@) == list_plan(
                    kind_views(kinds@).subrange(0, k as int),
                    text_views(namespaces@),
                    selector@,
                ),
            decreases kinds.len() - k,
        {
            let ghost before = kind_views(kinds@).subrange(0, k as int);
            let ghost after = kind_views(kinds@).subrange(0, k + 1);
            let ghost had = query_views(queries@);
            proof {
                assert(after.drop_last() =~= before);
                assert(after.last() == kinds@[k as int]@);
            }
            if kinds[k].supports_operation("list") {
                match kinds[k].scope {
                    Scope::Cluster => {
                        let q = ListQuery { kind: k, namespace: None, selector: selector.clone() };
                        queries.push(q);
                        proof {
                            assert(query_views(queries@) =~= had + kind_queries(
                                k as int,
                                Scope::Cluster,
                                text_views(namespaces@),
                                selector@,
                            ));
                        }
                    },
                    Scope::Namespaced => {
                        let mut j: usize = 0;
                        while j < namespaces.len()
                            invariant
                                j <= namespaces.len(),
                                k < kinds.len(),
                                query_views(queries@) == had + kind_queries(
                                    k as int,
                                    Scope::Namespaced,
                                    text_views(namespaces@),
                                    selector@,
                                ).subrange(0, j as int),
                            decreases namespaces.len() - j,
                        {
                            let ghost all = kind_queries(
                                k as int,
                                Scope::Namespaced,
                                text_views(namespaces@),
                                selector@,
                            );
                            let ghost so_far = query_views(queries@);
                            let q = ListQuery {
                                kind: k,
                                namespace: Some(namespaces[j].clone()),
                                selector: selector.clone(),
                            };
                            queries.push(q);
                            proof {
                                assert(query_views(queries@) =~= so_far.push(q@));
                                assert(q@ == all[j as int]);
                                assert(so_far.push(q@) =~= had + all.subrange(0, j + 1));
                            }
                            j = j + 1;
                        }
                        proof {
                            let all = kind_queries(
                                k as int,
                                Scope::Namespaced,
                                text_views(namespaces@),
                                selector@,
                            );
                            assert(all.subrange(0, namespaces.len() as int) =~= all);
                        }
                    },
                }
            }
            k = k + 1;
        }
        assert(kind_views(kinds@).subrange(0, kinds.len() as int) =~= kind_views(kinds@));
        queries
    }

    /// The calls that apply the manifests of this install, in the order of the manifests. A
    /// manifest whose kind discovery has not found is passed over; one without type fields
    /// stops the install with an error, after the calls before it.
    pub fn apply_resources(
        &self,
        install_resources: &InstallResources,
        kinds: &Vec<DiscoveredKind>,
    ) -> (r: ClusterPlan)
        ensures
            r@ == planned(heads_of_resources(install_resources@), kind_views(kinds@), true),
    {
        let heads = install_resources.heads();
        plan_calls(&heads, kinds, true)
    }

    /// The calls that delete the resources found for this install, in the order in which
    /// they were found. A resource without type fields, or of a kind that discovery has not
    /// found, is passed over.
    pub fn delete_resources(&self, found: &Vec<ResourceHead>, kinds: &Vec<DiscoveredKind>) -> (r:
        ClusterPlan)
        ensures
            r@ == planned(head_views(found@), kind_views(kinds@), false),
            r.failure is None,
    {
        let plan = plan_calls(found, kinds, false);
        proof {
            lemma_lenient_never_fails(head_views(found@), kind_views(kinds@));
        }
        plan
    }
}

/// Without strictness no plan fails.
pub(crate) proof fn lemma_lenient_never_fails(heads: Seq<HeadView>, kinds: Seq<KindView>)
    ensures
        planned(heads, kinds, false).failure is None,
    decreases heads.len(),
{
    if heads.len() > 0 {
        lemma_lenient_never_fails(heads.drop_last(), kinds);
    }
}

/// A kind that is found stands among the kinds.
pub(crate) proof fn lemma_resolved_in_range(kinds: Seq<KindView>, types: TypeMetaView)
    ensures
        resolved(kinds, types) matches Some(k) ==> 0 <= k < kinds.len(),
    decreases kinds.len(),
{
    if kinds.len() > 0 {
        lemma_resolved_in_range(kinds.drop_last(), types);
    }
}

/// Every call of a plan is for one of the resources, names a kind among those discovered,
/// and goes where the scope of that kind and the namespace of the resource send it.
pub(crate) proof fn lemma_call_facts(
    heads: Seq<HeadView>,
    kinds: Seq<KindView>,
    strict: bool,
    c: int,
)
    requires
        0 <= c < planned(heads, kinds, strict).calls.len(),
    ensures
        ({
            let call = planned(heads, kinds, strict).calls[c];
            &&& 0 <= call.resource < heads.len()
            &&& 0 <= call.kind < kinds.len()
            &&& call.target == target_of(kinds[call.kind].scope, heads[call.resource].namespace)
            &&& call.name == name_any(heads[call.resource])
        }),
    decreases heads.len(),
{
    if heads.len() > 0 {
        let done = planned(heads.drop_last(), kinds, strict);
        if c < done.calls.len() {
            lemma_call_facts(heads.drop_last(), kinds, strict, c);
            assert(planned(heads, kinds, strict).calls[c] == done.calls[c]);
        } else {
            match heads.last().types {
                None => {},
                Some(types) => {
                    lemma_resolved_in_range(kinds, types);
                },
            }
        }
    }
}

/// The list requests hold one request for every cluster-scoped kind that can be listed, and
/// one in every namespace for every namespaced kind that can be listed.
pub(crate) proof fn lemma_list_plan_has(
    kinds: Seq<KindView>,
    namespaces: Seq<Seq<char>>,
    selector: Seq<char>,
    k: int,
    j: int,
)
    requires
        0 <= k < kinds.len(),
        supports(kinds[k], "list"@),
    ensures
        kinds[k].scope is Cluster ==> list_plan(kinds, namespaces, selector).contains(
            QueryView { kind: k, namespace: None, selector: selector },
        ),
        kinds[k].scope is Namespaced && 0 <= j < namespaces.len() ==> list_plan(
            kinds,
            namespaces,
            selector,
        ).contains(QueryView { kind: k, namespace: Some(namespaces[j]), selector: selector }),
    decreases kinds.len(),
{
    let all = list_plan(kinds, namespaces, selector);
    let done = list_plan(kinds.drop_last(), namespaces, selector);
    if k == kinds.len() - 1 {
        let more = kind_queries(k, kinds[k].scope, namespaces, selector);
        assert(all == done + more);
        if kinds[k].scope is Cluster {
            assert(all[done.len() as int] == more[0]);
        } else if 0 <= j < namespaces.len() {
            assert(all[done.len() + j] == more[j]);
        }
    } else {
        assert(kinds.drop_last()[k] == kinds[k]);
        lemma_list_plan_has(kinds.drop_last(), namespaces, selector, k, j);
        if kinds[k].scope is Cluster {
            let q = QueryView { kind: k, namespace: None, selector: selector };
            let i = choose|i: int| 0 <= i < done.len() && done[i] == q;
            assert(all[i] == q);
        } else if 0 <= j < namespaces.len() {
            let q = QueryView { kind: k, namespace: Some(namespaces[j]), selector: selector };
            let i = choose|i: int| 0 <= i < done.len() && done[i] == q;
            assert(all[i] == q);
        }
    }
}

/// Where an install applies a resource, inspecting and uninstalling look for it: for every
/// call of a plan whose kind can be listed, the list requests hold the request for that kind
/// in the place of the call, cluster-wide for a cluster-scoped kind and in the namespace of
/// the resource for a namespaced kind, as far as the cluster has that namespace.
pub proof fn lemma_applied_resource_is_listed(
    heads: Seq<HeadView>,
    kinds: Seq<KindView>,
    namespaces: Seq<Seq<char>>,
    selector: Seq<char>,
    c: int,
)
    requires
        0 <= c < planned(heads, kinds, true).calls.len(),
    ensures
        ({
            let call = planned(heads, kinds, true).calls[c];
            let requests = list_plan(kinds, namespaces, selector);
            0 <= call.kind < kinds.len() && (supports(kinds[call.kind], "list"@) ==> match call.target {
                TargetView::Cluster => requests.contains(
                    QueryView { kind: call.kind, namespace: None, selector: selector },
                ),
                TargetView::Namespaced(ns) => namespaces.contains(ns) ==> requests.contains(
                    QueryView { kind: call.kind, namespace: Some(ns), selector: selector },
                ),
                TargetView::DefaultNamespace => true,
            })
        }),
{
    lemma_call_facts(heads, kinds, true, c);
    let call = planned(heads, kinds, true).calls[c];
    if supports(kinds[call.kind], "list"@) {
        match call.target {
            TargetView::Cluster => {
                lemma_list_plan_has(kinds, namespaces, selector, call.kind, 0);
            },
            TargetView::Namespaced(ns) => {
                if namespaces.contains(ns) {
                    let j = choose|j: int| 0 <= j < namespaces.len() && namespaces[j] == ns;
                    lemma_list_plan_has(kinds, namespaces, selector, call.kind, j);
                }
            },
            TargetView::DefaultNamespace => {},
        }
    }
}

/// The field manager under which manifests are applied.
pub const FIELD_MANAGER: &'static str = "mistctl";

/// How manifests are applied: under which field manager, and whether fields that another
/// manager owns are taken over.
#[derive(Debug)]
pub struct ApplyPolicy {
    pub field_manager: String,
    pub force: bool,
}

/// What becomes of the dependents of a resource that is deleted.
#[derive(Debug, Clone, Copy, PartialEq, Eq, Structural)]
pub enum Propagation {
    /// The dependents are left behind.
    Orphan,
    /// The resource goes at once, its dependents after it.
    Background,
    /// The dependents go first; the resource stays until they are gone.
    Foreground,
}

/// Manifests are applied under the field manager `mistctl`, and fields that another manager
/// owns are taken over.
pub fn apply_policy() -> (r: ApplyPolicy)
    ensures
        r.field_manager@ == "mistctl"@,
        r.force,
{
    ApplyPolicy { field_manager: String::from_str(FIELD_MANAGER), force: true }
}

/// Resources are deleted in the foreground.
pub fn delete_propagation() -> (r: Propagation)
    ensures
        r == Propagation::Foreground,
{
    Propagation::Foreground
}

/// The calls that a command makes to the cluster, by what they are for.
#[derive(Debug, Clone, Copy, PartialEq, Eq, Structural)]
pub enum Stage {
    /// Asking which kinds the cluster has.
    Discovery,
    /// Listing the namespaces.
    Namespaces,
    /// Listing the resources of one kind that bear the labels of an install.
    List,
    /// Fetching one listed resource in full.
    Fetch,
    /// Applying one manifest.
    Apply,
    /// Deleting one resource.
    Delete,
}

/// Why a command that talks to the cluster stops.
#[derive(Debug)]
pub enum ClusterError {
    /// A call failed; the text is the message of the client.
    Call(Stage, String),
    /// A manifest has no type fields; the text shows the manifest.
    MissingTypeMeta(String),
}

impl ClusterError {
    pub open spec fn message_text(self) -> Seq<char> {
        match self {
            ClusterError::Call(_, m) => m@,
            ClusterError::MissingTypeMeta(shown) => "could not determine TypeMeta for "@ + shown@,
        }
    }

    /// The text shown to the user.
    pub fn message(&self) -> (r: String)
        ensures
            r@ == self.message_text(),
    {
        match self {
            ClusterError::Call(_, m) => m.clone(),
            ClusterError::MissingTypeMeta(shown) => {
                let mut r = String::from_str("could not determine TypeMeta for ");
                r.append(shown.as_str());
                r
            },
        }
    }
}

/// What a command does after a call to the cluster.
#[derive(Debug)]
pub enum Step {
    /// The command goes on.
    GoOn,
    /// The command stops with this error.
    Stop(ClusterError),
}

/// What follows the outcome of a call: a call that succeeded lets the command go on; so
/// does a list call that failed, whose kind is then passed over; any other call that failed
/// stops the command with its error.
pub open spec fn step_after(stage: Stage, failure: Option<Seq<char>>) -> Option<(Stage, Seq<char>)> {
    match failure {
        None => None,
        Some(m) => if stage == Stage::List {
            None
        } else {
            Some((stage, m))
        },
    }
}

/// Decides what follows the outcome of a call to the cluster; `failure` is the message of
/// the client where the call failed.
pub fn after_call(stage: Stage, failure: Option<String>) -> (r: Step)
    ensures
        match r {
            Step::GoOn => step_after(stage, opt_text(failure)) is None,
            Step::Stop(ClusterError::Call(at, m)) => step_after(stage, opt_text(failure)) == Some(
                (at, m@),
            ),
            Step::Stop(_) => false,
        },
{
    match failure {
        None => Step::GoOn,
        Some(m) => match stage {
            Stage::List => Step::GoOn,
            _ => Step::Stop(ClusterError::Call(stage, m)),
        },
    }
}

/// The names under which the resources that a list call gave are fetched in full, in their
/// order; none where the list call failed.
pub open spec fn names_to_fetch(listed: Option<Seq<HeadView>>) -> Seq<Seq<char>> {
    match listed {
        None => Seq::empty(),
        Some(items) => Seq::new(items.len(), |i: int| name_any(items[i])),
    }
}

pub open spec fn listed_views(listed: Option<Vec<ResourceHead>>) -> Option<Seq<HeadView>> {
    match listed {
        None => None,
        Some(items) => Some(head_views(items@)),
    }
}

/// Decides what is fetched after a list call: every resource that the call gave, under its
/// name, and nothing where the call failed.
pub fn after_list(listed: &Option<Vec<ResourceHead>>) -> (r: Vec<String>)
    ensures
        text_views(r@) == names_to_fetch(listed_views(*listed)),
{
    let mut names: Vec<String> = Vec::new();
    assert(text_views(names@) =~= Seq::empty());
    match listed {
        None => {},
        Some(items) => {
            let ghost all = names_to_fetch(listed_views(*listed));
            let mut i: usize = 0;
            while i < items.len()
                invariant
                    i <= items.len(),
                    all == names_to_fetch(Some(head_views(items@))),
                    text_views(names@) == all.subrange(0, i as int),
                decreases items.len() - i,
            {
                let ghost had = text_views(names@);
                let name = items[i].name_any();
                names.push(name);
                proof {
                    assert(head_views(items@)[i as int] == items@[i as int]@);
                    assert(text_views(names@) =~= had.push(name@));
                    assert(had.push(name@) =~= all.subrange(0, i + 1));
                }
                i = i + 1;
            }
            assert(all.subrange(0, items.len() as int) =~= all);
        },
    }
    names
}

/// The resources that the calls of a plan are for, in the order of the calls.
pub open spec fn called_resources(calls: Seq<CallView>) -> Seq<int> {
    Seq::new(calls.len(), |i: int| calls[i].resource)
}

impl ClusterPlan {
    /// The indices of the resources that the plan has a call for, in the order of the
    /// calls: after an uninstall these are the resources that were deleted.
    pub fn resources(&self) -> (r: Vec<usize>)
        ensures
            r@.len() == self@.calls.len(),
            forall|i: int| 0 <= i < r@.len() ==> r@[i] as int == called_resources(self@.calls)[i],
    {
        let mut out: Vec<usize> = Vec::new();
        let mut i: usize = 0;
        while i < self.calls.len()
            invariant
                i <= self.calls.len(),
                out@.len() == i,
                forall|k: int| 0 <= k < i ==> out@[k] == self.calls@[k].resource,
            decreases self.calls.len() - i,
        {
            out.push(self.calls[i].resource);
            i = i + 1;
        }
        assert forall|k: int| 0 <= k < out@.len() implies out@[k] as int == called_resources(
            self@.calls,
        )[k] by {
            assert(self@.calls[k] == self.calls@[k]@);
        }
        out
    }
}

} // verus!
