//! The reconciler: one convergence pass over (namespaces × credentials).
//!
//! For every ordered pair the credential secret ensurer runs first; when it
//! skips (namespace out of scope) the service-account binder is not
//! invoked, otherwise it is, whatever the secret write outcome was. A
//! failing pair (here: the namespace has no default service account to
//! bind) is isolated: the pass records the failure and goes on with the
//! remaining pairs.

use vstd::prelude::*;

use crate::model::{
    find_account, find_secret, spec_find_account, spec_find_secret, AccountRecordView,
    ClusterModel, ClusterView, SecretRecord, SecretRecordView,
};
use crate::config::Config;
use crate::plan::{
    action_writes, plan_sa, plan_secret, spec_plan_sa, spec_plan_secret, ActionView, ConfigView,
    LookupView, SecretAction, SecretLookup,
};

verus! {

/// What one (namespace, credential) pair came to in a convergence pass.
#[derive(Clone, Copy, Debug, PartialEq, Eq, Structural)]
pub enum PairOutcome {
    /// The namespace is out of the credential's scope: nothing was touched.
    Skipped,
    /// The pair converged; the flags say which of the two objects was
    /// actually written.
    Synced { wrote_secret: bool, wrote_binding: bool },
    /// The namespace has no default service account: the binder failed for
    /// this pair. A secret write issued before the failure stands.
    NoServiceAccount,
}

/// What the stored secret looks like to the ensurer for the pair (`ns`,
/// `name`).
pub open spec fn spec_lookup_secret(
    secrets: Seq<SecretRecordView>,
    ns: Seq<char>,
    name: Seq<char>,
) -> LookupView {
    match spec_find_secret(secrets, ns, name, 0) {
        Option::None => LookupView::Missing,
        Option::Some(i) => LookupView::Found(secrets[i].payload),
    }
}

/// The secrets after the ensurer's action: a `Create` appends the new
/// record in the target namespace, a `Patch` replaces the payload of the
/// record the ensurer read, anything else leaves the secrets alone.
pub open spec fn spec_apply_secret_action(
    secrets: Seq<SecretRecordView>,
    ns: Seq<char>,
    name: Seq<char>,
    a: ActionView,
) -> Seq<SecretRecordView> {
    match a {
        ActionView::Create(p) => secrets.push(
            SecretRecordView { namespace: ns, name: name, payload: Option::Some(p) },
        ),
        ActionView::Patch(p) => {
            let i = spec_find_secret(secrets, ns, name, 0)->Some_0;
            secrets.update(
                i,
                SecretRecordView {
                    namespace: secrets[i].namespace,
                    name: secrets[i].name,
                    payload: Option::Some(p),
                },
            )
        },
        _ => secrets,
    }
}

/// One (namespace, credential) pair of a convergence pass: the secret
/// ensurer's decision is applied, and unless it skipped, the binder then
/// ensures the namespace's default service account references the secret.
pub open spec fn spec_ensure_pair(state: ClusterView, ns: Seq<char>, cfg: ConfigView) -> (
    ClusterView,
    PairOutcome,
) {
    let stored = spec_lookup_secret(state.secrets, ns, cfg.server);
    let a = spec_plan_secret(ns, cfg, stored);
    if a is Skip {
        (state, PairOutcome::Skipped)
    } else {
        let secrets1 = spec_apply_secret_action(state.secrets, ns, cfg.server, a);
        let state1 = ClusterView { secrets: secrets1, accounts: state.accounts };
        match spec_find_account(state.accounts, ns, 0) {
            Option::None => (state1, PairOutcome::NoServiceAccount),
            Option::Some(j) => match spec_plan_sa(state.accounts[j].pull_secrets, cfg.server) {
                Option::None => (
                    state1,
                    PairOutcome::Synced { wrote_secret: action_writes(a), wrote_binding: false },
                ),
                Option::Some(nrefs) => (
                    ClusterView {
                        secrets: secrets1,
                        accounts: state.accounts.update(
                            j,
                            AccountRecordView {
                                namespace: state.accounts[j].namespace,
                                pull_secrets: nrefs,
                            },
                        ),
                    },
                    PairOutcome::Synced { wrote_secret: action_writes(a), wrote_binding: true },
                ),
            },
        }
    }
}

/// Run one (namespace, credential) pair against the modeled cluster.
pub fn ensure_pair(state: &mut ClusterModel, ns: &String, cfg: &Config) -> (o: PairOutcome)
    ensures
        final(state)@ == spec_ensure_pair(old(state)@, ns@, cfg@).0,
        o == spec_ensure_pair(old(state)@, ns@, cfg@).1,
{
    let found = find_secret(&state.secrets, ns, &cfg.server, 0);
    let stored: SecretLookup = match found {
        Option::None => SecretLookup::Missing,
        Option::Some(i) => match &state.secrets[i].payload {
            Option::None => SecretLookup::Found(Option::None),
            Option::Some(p) => SecretLookup::Found(Option::Some(p.clone())),
        },
    };
    let a = plan_secret(ns, cfg, &stored);
    let wrote_secret = matches!(a, SecretAction::Create(_) | SecretAction::Patch(_));
    let ghost secrets0 = state.secrets.deep_view();
    match a {
        SecretAction::Skip => {
            return PairOutcome::Skipped;
        },
        SecretAction::Keep => {},
        SecretAction::Create(p) => {
            state.secrets.push(
                SecretRecord {
                    namespace: ns.clone(),
                    name: cfg.server.clone(),
                    payload: Option::Some(p),
                },
            );
            proof {
                lemma_deep_view_push(old(state).secrets@, state.secrets@);
                assert(state.secrets.deep_view() =~= views_of(state.secrets@));
                assert(secrets0 =~= views_of(old(state).secrets@));
            }
        },
        SecretAction::Patch(p) => {
            let i = match found {
                Option::Some(i) => i,
                Option::None => {
                    proof {
                        assert(false);
                    }
                    0
                },
            };
            let mut rec = state.secrets.remove(i);
            rec.payload = Option::Some(p);
            let ghost rec_v = rec@;
            state.secrets.insert(i, rec);
            proof {
                lemma_deep_view_replace(old(state).secrets@, state.secrets@, i as int, rec_v);
                assert(state.secrets.deep_view() =~= views_of(state.secrets@));
                assert(secrets0 =~= views_of(old(state).secrets@));
            }
        },
    }
    proof {
        assert(state.secrets.deep_view() =~= spec_apply_secret_action(
            secrets0,
            ns@,
            cfg@.server,
            spec_plan_secret(ns@, cfg@, stored@),
        ));
    }
    let j = match find_account(&state.accounts, ns, 0) {
        Option::None => {
            return PairOutcome::NoServiceAccount;
        },
        Option::Some(j) => j,
    };
    match plan_sa(&state.accounts[j].pull_secrets, &cfg.server) {
        Option::None => PairOutcome::Synced { wrote_secret, wrote_binding: false },
        Option::Some(nrefs) => {
            let mut acc = state.accounts.remove(j);
            acc.pull_secrets = nrefs;
            let ghost acc_v = acc@;
            state.accounts.insert(j, acc);
            proof {
                lemma_deep_view_replace(old(state).accounts@, state.accounts@, j as int, acc_v);
                assert(state.accounts.deep_view() =~= views_of(state.accounts@));
                assert(old(state)@.accounts =~= views_of(old(state).accounts@));
                assert(state.accounts.deep_view() =~= old(state)@.accounts.update(
                    j as int,
                    AccountRecordView {
                        namespace: old(state)@.accounts[j as int].namespace,
                        pull_secrets: nrefs.deep_view(),
                    },
                ));
            }
            PairOutcome::Synced { wrote_secret, wrote_binding: true }
        },
    }
}

/// A convergence pass over all credentials for one namespace, starting at
/// credential index `k`: each pair is run in order against the state the
/// previous pairs left behind, and every pair yields an outcome.
pub open spec fn spec_pass_cfgs(
    state: ClusterView,
    ns: Seq<char>,
    cfgs: Seq<ConfigView>,
    k: int,
) -> (ClusterView, Seq<PairOutcome>)
    decreases cfgs.len() - k,
{
    if k < 0 || k >= cfgs.len() {
        (state, Seq::<PairOutcome>::empty())
    } else {
        let one = spec_ensure_pair(state, ns, cfgs[k]);
        let rest = spec_pass_cfgs(one.0, ns, cfgs, k + 1);
        (rest.0, seq![one.1] + rest.1)
    }
}

/// A full convergence pass: the cross product of the namespaces from index
/// `k` on with all credentials, in order.
pub open spec fn spec_pass(
    state: ClusterView,
    nss: Seq<Seq<char>>,
    cfgs: Seq<ConfigView>,
    k: int,
) -> (ClusterView, Seq<PairOutcome>)
    decreases nss.len() - k,
{
    if k < 0 || k >= nss.len() {
        (state, Seq::<PairOutcome>::empty())
    } else {
        let one = spec_pass_cfgs(state, nss[k], cfgs, 0);
        let rest = spec_pass(one.0, nss, cfgs, k + 1);
        (rest.0, one.1 + rest.1)
    }
}

fn pass_cfgs(
    state: &mut ClusterModel,
    ns: &String,
    cfgs: &Vec<Config>,
    k: usize,
    out: &mut Vec<PairOutcome>,
)
    requires
        k <= cfgs.len(),
    ensures
        final(state)@ == spec_pass_cfgs(old(state)@, ns@, cfgs.deep_view(), k as int).0,
        final(out)@ == old(out)@ + spec_pass_cfgs(old(state)@, ns@, cfgs.deep_view(), k as int).1,
    decreases cfgs.len() - k,
{
    if k == cfgs.len() {
        proof {
            assert(out@ =~= out@ + Seq::<PairOutcome>::empty());
        }
        return;
    }
    let ghost pre_out = out@;
    let o = ensure_pair(state, ns, &cfgs[k]);
    out.push(o);
    let ghost mid_out = out@;
    pass_cfgs(state, ns, cfgs, k + 1, out);
    proof {
        let dv = cfgs.deep_view();
        let one = spec_ensure_pair(old(state)@, ns@, dv[k as int]);
        let rest = spec_pass_cfgs(one.0, ns@, dv, k as int + 1);
        assert(mid_out =~= pre_out + seq![one.1]);
        assert(out@ =~= pre_out + (seq![one.1] + rest.1));
    }
}

fn pass_all(
    state: &mut ClusterModel,
    all_ns: &Vec<String>,
    k: usize,
    cfgs: &Vec<Config>,
    out: &mut Vec<PairOutcome>,
)
    requires
        k <= all_ns.len(),
    ensures
        final(state)@ == spec_pass(old(state)@, all_ns.deep_view(), cfgs.deep_view(), k as int).0,
        final(out)@ == old(out)@ + spec_pass(
            old(state)@,
            all_ns.deep_view(),
            cfgs.deep_view(),
            k as int,
        ).1,
    decreases all_ns.len() - k,
{
    if k == all_ns.len() {
        proof {
            assert(out@ =~= out@ + Seq::<PairOutcome>::empty());
        }
        return;
    }
    let ghost pre_out = out@;
    pass_cfgs(state, &all_ns[k], cfgs, 0, out);
    let ghost mid_out = out@;
    pass_all(state, all_ns, k + 1, cfgs, out);
    proof {
        let nv = all_ns.deep_view();
        let dv = cfgs.deep_view();
        let one = spec_pass_cfgs(old(state)@, nv[k as int], dv, 0);
        let rest = spec_pass(one.0, nv, dv, k as int + 1);
        assert(mid_out == pre_out + one.1);
        assert(out@ =~= pre_out + (one.1 + rest.1));
    }
}

/// One convergence pass of the reconciler: for every ordered (namespace,
/// credential) pair, run the credential secret ensurer and, unless it
/// skipped, the service-account binder, against the modeled cluster state.
/// Every pair yields exactly one outcome, in cross-product order.
pub fn ensure(state: &mut ClusterModel, all_ns: &Vec<String>, configs: &Vec<Config>) -> (out: Vec<
    PairOutcome,
>)
    ensures
        final(state)@ == spec_pass(old(state)@, all_ns.deep_view(), configs.deep_view(), 0).0,
        out@ == spec_pass(old(state)@, all_ns.deep_view(), configs.deep_view(), 0).1,
        out@.len() == all_ns@.len() * configs@.len(),
{
    let mut out: Vec<PairOutcome> = Vec::new();
    pass_all(state, all_ns, 0, configs, &mut out);
    proof {
        lemma_pass_covers_all_pairs(old(state)@, all_ns.deep_view(), configs.deep_view());
        assert(out@ =~= Seq::<PairOutcome>::empty() + spec_pass(
            old(state)@,
            all_ns.deep_view(),
            configs.deep_view(),
            0,
        ).1);
    }
    out
}

proof fn lemma_pass_cfgs_len(state: ClusterView, ns: Seq<char>, cfgs: Seq<ConfigView>, k: int)
    requires
        0 <= k <= cfgs.len(),
    ensures
        spec_pass_cfgs(state, ns, cfgs, k).1.len() == cfgs.len() - k,
    decreases cfgs.len() - k,
{
    if k < cfgs.len() {
        lemma_pass_cfgs_len(spec_ensure_pair(state, ns, cfgs[k]).0, ns, cfgs, k + 1);
    }
}

proof fn lemma_pass_len(state: ClusterView, nss: Seq<Seq<char>>, cfgs: Seq<ConfigView>, k: int)
    requires
        0 <= k <= nss.len(),
    ensures
        spec_pass(state, nss, cfgs, k).1.len() == (nss.len() - k) * cfgs.len(),
    decreases nss.len() - k,
{
    if k < nss.len() {
        let one = spec_pass_cfgs(state, nss[k], cfgs, 0);
        lemma_pass_cfgs_len(state, nss[k], cfgs, 0);
        lemma_pass_len(one.0, nss, cfgs, k + 1);
        assert((nss.len() - k) * cfgs.len() == cfgs.len() + (nss.len() - (k + 1)) * cfgs.len())
            by (nonlinear_arith);
    } else {
        assert((nss.len() - k) * cfgs.len() == 0) by (nonlinear_arith)
            requires
                k == nss.len(),
        ;
    }
}

/// Partial failure isolation: a convergence pass yields exactly one outcome
/// per (namespace, credential) pair of the cross product. A failing pair —
/// one whose namespace has no default service account to bind — is recorded
/// and never prevents the remaining pairs from being processed: `spec_pass`
/// threads every pair in order whatever each pair's outcome is.
pub proof fn lemma_pass_covers_all_pairs(
    state: ClusterView,
    nss: Seq<Seq<char>>,
    cfgs: Seq<ConfigView>,
)
    ensures
        spec_pass(state, nss, cfgs, 0).1.len() == nss.len() * cfgs.len(),
{
    lemma_pass_len(state, nss, cfgs, 0);
}

/// The element-wise views of a sequence; for a `Vec` this is its deep view.
spec fn views_of<T: DeepView>(s: Seq<T>) -> Seq<T::V> {
    Seq::new(s.len(), |i: int| s[i].deep_view())
}

/// After a push, the element-wise views are the old ones with the new
/// element's view appended.
proof fn lemma_deep_view_push<T: DeepView>(pre: Seq<T>, post: Seq<T>)
    requires
        post.len() == pre.len() + 1,
        post == pre.push(post[pre.len() as int]),
    ensures
        views_of(post) =~= views_of(pre).push(post[pre.len() as int].deep_view()),
{
    assert forall|k: int| 0 <= k < post.len() implies views_of(post)[k] == views_of(pre).push(
        post[pre.len() as int].deep_view(),
    )[k] by {
        if k < pre.len() {
            assert(post[k] == pre[k]);
        }
    }
}

/// After a remove-then-insert at one index, the element-wise views are the
/// old ones with that position's view replaced.
proof fn lemma_deep_view_replace<T: DeepView>(pre: Seq<T>, post: Seq<T>, i: int, v: T::V)
    requires
        0 <= i < pre.len(),
        post == pre.remove(i).insert(i, post[i]),
        post[i].deep_view() == v,
    ensures
        views_of(post) =~= views_of(pre).update(i, v),
{
    assert forall|k: int| 0 <= k < post.len() implies views_of(post)[k] == views_of(pre).update(
        i,
        v,
    )[k] by {
        if k < i {
            assert(post[k] == pre.remove(i)[k]);
            assert(pre.remove(i)[k] == pre[k]);
        } else if k > i {
            assert(post[k] == pre.remove(i)[k - 1]);
            assert(pre.remove(i)[k - 1] == pre[k]);
        }
    }
}

} // verus!
