//! Convergence of the reconciler: one pass settles every pair, and a
//! second pass over the same inputs changes nothing.

use vstd::prelude::*;

use crate::model::{spec_find_account, spec_find_secret, AccountRecordView, ClusterView,
    SecretRecordView};
use crate::plan::{sa_has_ref, spec_plan_sa, spec_plan_secret, ActionView, ConfigView, LookupView};
use crate::reconcile::{
    spec_apply_secret_action, spec_ensure_pair, spec_lookup_secret, spec_pass, spec_pass_cfgs,
    PairOutcome,
};

verus! {

/// Whether an outcome reports a write.
pub open spec fn pair_writes(o: PairOutcome) -> bool {
    o matches PairOutcome::Synced { wrote_secret, wrote_binding } && (wrote_secret
        || wrote_binding)
}

/// A pair is settled in a state when running it there changes nothing and
/// reports no write.
pub open spec fn settled(
    s: ClusterView,
    ns: Seq<char>,
    cfg: ConfigView,
) -> bool {
    spec_ensure_pair(s, ns, cfg).0 == s && !pair_writes(spec_ensure_pair(s, ns, cfg).1)
}

/// A found secret index is in bounds and names a matching record.
proof fn lemma_find_secret_bounds(s: Seq<SecretRecordView>, ns: Seq<char>, h: Seq<char>, k: int)
    requires
        0 <= k,
    ensures
        spec_find_secret(s, ns, h, k) matches Option::Some(i) ==> k <= i < s.len()
            && s[i].namespace == ns && s[i].name == h,
    decreases s.len() - k,
{
    if k < s.len() {
        lemma_find_secret_bounds(s, ns, h, k + 1);
    }
}

/// A found account index is in bounds and names a matching record.
proof fn lemma_find_account_bounds(a: Seq<AccountRecordView>, ns: Seq<char>, k: int)
    requires
        0 <= k,
    ensures
        spec_find_account(a, ns, k) matches Option::Some(j) ==> k <= j < a.len()
            && a[j].namespace == ns,
    decreases a.len() - k,
{
    if k < a.len() {
        lemma_find_account_bounds(a, ns, k + 1);
    }
}

/// Appending a record leaves every earlier find result alone; a fresh
/// match is found exactly when the new record matches.
proof fn lemma_find_secret_push(
    s: Seq<SecretRecordView>,
    r: SecretRecordView,
    ns: Seq<char>,
    h: Seq<char>,
    k: int,
)
    requires
        0 <= k <= s.len(),
    ensures
        spec_find_secret(s, ns, h, k) is Some ==> spec_find_secret(s.push(r), ns, h, k)
            == spec_find_secret(s, ns, h, k),
        spec_find_secret(s, ns, h, k) is None && r.namespace == ns && r.name == h
            ==> spec_find_secret(s.push(r), ns, h, k) == Option::Some(s.len() as int),
        spec_find_secret(s, ns, h, k) is None && !(r.namespace == ns && r.name == h)
            ==> spec_find_secret(s.push(r), ns, h, k) is None,
    decreases s.len() - k,
{
    if k < s.len() {
        assert(s.push(r)[k] == s[k]);
        lemma_find_secret_push(s, r, ns, h, k + 1);
    } else {
        assert(s.push(r)[k] == r);
        assert(spec_find_secret(s.push(r), ns, h, k + 1) is None);
    }
}

/// Replacing a record by one with the same namespace and name leaves every
/// find result alone.
proof fn lemma_find_secret_update(
    s: Seq<SecretRecordView>,
    i: int,
    r: SecretRecordView,
    ns: Seq<char>,
    h: Seq<char>,
    k: int,
)
    requires
        0 <= i < s.len(),
        r.namespace == s[i].namespace,
        r.name == s[i].name,
        0 <= k <= s.len(),
    ensures
        spec_find_secret(s.update(i, r), ns, h, k) == spec_find_secret(s, ns, h, k),
    decreases s.len() - k,
{
    if k < s.len() {
        lemma_find_secret_update(s, i, r, ns, h, k + 1);
    }
}

/// Replacing an account record by one for the same namespace leaves every
/// find result alone.
proof fn lemma_find_account_update(
    a: Seq<AccountRecordView>,
    j: int,
    r: AccountRecordView,
    ns: Seq<char>,
    k: int,
)
    requires
        0 <= j < a.len(),
        r.namespace == a[j].namespace,
        0 <= k <= a.len(),
    ensures
        spec_find_account(a.update(j, r), ns, k) == spec_find_account(a, ns, k),
    decreases a.len() - k,
{
    if k < a.len() {
        lemma_find_account_update(a, j, r, ns, k + 1);
    }
}

/// Running one pair settles it: immediately running the same pair again
/// leaves the state unchanged and reports no write.
pub proof fn lemma_pair_settles(
    s: ClusterView,
    ns: Seq<char>,
    cfg: ConfigView,
)
    ensures
        settled(spec_ensure_pair(s, ns, cfg).0, ns, cfg),
{
    let stored = spec_lookup_secret(s.secrets, ns, cfg.server);
    let a = spec_plan_secret(ns, cfg, stored);
    lemma_find_secret_bounds(s.secrets, ns, cfg.server, 0);
    lemma_find_account_bounds(s.accounts, ns, 0);
    if !(a is Skip) {
        let secrets1 = spec_apply_secret_action(s.secrets, ns, cfg.server, a);
        match a {
            ActionView::Create(p) => {
                lemma_find_secret_push(
                    s.secrets,
                    SecretRecordView { namespace: ns, name: cfg.server, payload: Option::Some(p) },
                    ns,
                    cfg.server,
                    0,
                );
                assert(spec_lookup_secret(secrets1, ns, cfg.server) == LookupView::Found(
                    Option::Some(p),
                ));
            },
            ActionView::Patch(p) => {
                let i = spec_find_secret(s.secrets, ns, cfg.server, 0)->Some_0;
                lemma_find_secret_update(
                    s.secrets,
                    i,
                    SecretRecordView {
                        namespace: s.secrets[i].namespace,
                        name: s.secrets[i].name,
                        payload: Option::Some(p),
                    },
                    ns,
                    cfg.server,
                    0,
                );
                assert(spec_lookup_secret(secrets1, ns, cfg.server) == LookupView::Found(
                    Option::Some(p),
                ));
            },
            _ => {},
        }
        match spec_find_account(s.accounts, ns, 0) {
            Option::None => {},
            Option::Some(j) => {
                match spec_plan_sa(s.accounts[j].pull_secrets, cfg.server) {
                    Option::None => {},
                    Option::Some(nrefs) => {
                        lemma_find_account_update(
                            s.accounts,
                            j,
                            AccountRecordView {
                                namespace: s.accounts[j].namespace,
                                pull_secrets: nrefs,
                            },
                            ns,
                            0,
                        );
                        crate::plan::lemma_sa_bind_idempotent(
                            s.accounts[j].pull_secrets,
                            cfg.server,
                        );
                    },
                }
            },
        }
    }
}

/// Appending a reference never removes one.
proof fn lemma_sa_has_ref_push(refs: Seq<Option<Seq<char>>>, x: Option<Seq<char>>, h: Seq<char>)
    requires
        sa_has_ref(refs, h),
    ensures
        sa_has_ref(refs.push(x), h),
{
    let i = choose|i: int| 0 <= i < refs.len() && refs[i] == Option::Some(h);
    assert(refs.push(x)[i] == Option::Some(h));
}

/// Processing one pair leaves every settled pair settled, as long as the
/// two pairs' credentials are the same one or name different registry
/// hosts (the hosts are the credential list's unique keys).
pub proof fn lemma_pair_preserves_settled(
    s: ClusterView,
    nsq: Seq<char>,
    cfgq: ConfigView,
    nsp: Seq<char>,
    cfgp: ConfigView,
)
    requires
        settled(s, nsp, cfgp),
        cfgq == cfgp || cfgq.server != cfgp.server,
    ensures
        settled(spec_ensure_pair(s, nsq, cfgq).0, nsp, cfgp),
{
    if nsq == nsp && cfgq == cfgp {
        // The same pair: it is settled, so processing it changes nothing.
    } else {
        let s1 = spec_ensure_pair(s, nsq, cfgq).0;
        let hq = cfgq.server;
        let hp = cfgp.server;
        let storedq = spec_lookup_secret(s.secrets, nsq, hq);
        let aq = spec_plan_secret(nsq, cfgq, storedq);
        let storedp = spec_lookup_secret(s.secrets, nsp, hp);
        let ap = spec_plan_secret(nsp, cfgp, storedp);
        lemma_find_secret_bounds(s.secrets, nsq, hq, 0);
        lemma_find_secret_bounds(s.secrets, nsp, hp, 0);
        lemma_find_account_bounds(s.accounts, nsq, 0);
        lemma_find_account_bounds(s.accounts, nsp, 0);

        // The secret lookup of the settled pair is untouched.
        if !(aq is Skip) {
            match aq {
                ActionView::Create(pq) => {
                    let r = SecretRecordView {
                        namespace: nsq,
                        name: hq,
                        payload: Option::Some(pq),
                    };
                    lemma_find_secret_push(s.secrets, r, nsp, hp, 0);
                    match spec_find_secret(s.secrets, nsp, hp, 0) {
                        Option::Some(ip) => {
                            assert(s.secrets.push(r)[ip] == s.secrets[ip]);
                        },
                        Option::None => {
                            // The new record cannot match (nsp, hp): equal
                            // hosts would mean the same credential, and the
                            // same-pair case is handled above, so here the
                            // namespaces differ.
                            assert(!(r.namespace == nsp && r.name == hp));
                        },
                    }
                    assert(spec_lookup_secret(s1.secrets, nsp, hp) == storedp);
                },
                ActionView::Patch(pq) => {
                    let iq = spec_find_secret(s.secrets, nsq, hq, 0)->Some_0;
                    let r = SecretRecordView {
                        namespace: s.secrets[iq].namespace,
                        name: s.secrets[iq].name,
                        payload: Option::Some(pq),
                    };
                    lemma_find_secret_update(s.secrets, iq, r, nsp, hp, 0);
                    match spec_find_secret(s.secrets, nsp, hp, 0) {
                        Option::Some(ip) => {
                            assert(ip != iq);
                            assert(s.secrets.update(iq, r)[ip] == s.secrets[ip]);
                        },
                        Option::None => {},
                    }
                    assert(spec_lookup_secret(s1.secrets, nsp, hp) == storedp);
                },
                _ => {
                    assert(s1.secrets == s.secrets);
                },
            }
        }
        assert(spec_lookup_secret(s1.secrets, nsp, hp) == storedp);
        assert(spec_plan_secret(nsp, cfgp, spec_lookup_secret(s1.secrets, nsp, hp)) == ap);

        // The account state of the settled pair is untouched or only grows.
        if !(aq is Skip) {
            match spec_find_account(s.accounts, nsq, 0) {
                Option::None => {
                    assert(s1.accounts == s.accounts);
                },
                Option::Some(jq) => {
                    match spec_plan_sa(s.accounts[jq].pull_secrets, hq) {
                        Option::None => {
                            assert(s1.accounts == s.accounts);
                        },
                        Option::Some(nrefs) => {
                            let r = AccountRecordView {
                                namespace: s.accounts[jq].namespace,
                                pull_secrets: nrefs,
                            };
                            lemma_find_account_update(s.accounts, jq, r, nsp, 0);
                            match spec_find_account(s.accounts, nsp, 0) {
                                Option::None => {},
                                Option::Some(jp) => {
                                    if jp == jq {
                                        // The settled pair's reference
                                        // survives the append.
                                        if !(ap is Skip) {
                                            assert(sa_has_ref(
                                                s.accounts[jp].pull_secrets,
                                                hp,
                                            ));
                                            lemma_sa_has_ref_push(
                                                s.accounts[jp].pull_secrets,
                                                Option::Some(hq),
                                                hp,
                                            );
                                            assert(s1.accounts[jp].pull_secrets == nrefs);
                                            assert(sa_has_ref(s1.accounts[jp].pull_secrets, hp));
                                        }
                                    } else {
                                        assert(s.accounts.update(jq, r)[jp] == s.accounts[jp]);
                                    }
                                },
                            }
                        },
                    }
                },
            }
        } else {
            assert(s1.accounts == s.accounts);
        }
    }
}

/// The registry hosts of a credential list are pairwise distinct: the host
/// is the list's unique key.
pub open spec fn distinct_servers(cfgs: Seq<ConfigView>) -> bool {
    forall|a: int, b: int|
        0 <= a < cfgs.len() && 0 <= b < cfgs.len() && a != b ==> cfgs[a].server != cfgs[b].server
}

/// Every credential of the list either is `cfg` itself or names another
/// host.
spec fn server_compatible(cfg: ConfigView, cfgs: Seq<ConfigView>) -> bool {
    forall|j: int| 0 <= j < cfgs.len() ==> cfgs[j] == cfg || cfgs[j].server != cfg.server
}

proof fn lemma_pass_cfgs_preserves(
    s: ClusterView,
    ns: Seq<char>,
    cfgs: Seq<ConfigView>,
    k: int,
    nsp: Seq<char>,
    cfgp: ConfigView,
)
    requires
        0 <= k <= cfgs.len(),
        settled(s, nsp, cfgp),
        server_compatible(cfgp, cfgs),
    ensures
        settled(spec_pass_cfgs(s, ns, cfgs, k).0, nsp, cfgp),
    decreases cfgs.len() - k,
{
    if k < cfgs.len() {
        lemma_pair_preserves_settled(s, ns, cfgs[k], nsp, cfgp);
        lemma_pass_cfgs_preserves(spec_ensure_pair(s, ns, cfgs[k]).0, ns, cfgs, k + 1, nsp, cfgp);
    }
}

proof fn lemma_pass_cfgs_settles(
    s: ClusterView,
    ns: Seq<char>,
    cfgs: Seq<ConfigView>,
    k: int,
    j: int,
)
    requires
        0 <= k <= j < cfgs.len(),
        distinct_servers(cfgs),
    ensures
        settled(spec_pass_cfgs(s, ns, cfgs, k).0, ns, cfgs[j]),
    decreases cfgs.len() - k,
{
    let s1 = spec_ensure_pair(s, ns, cfgs[k]).0;
    if k == j {
        lemma_pair_settles(s, ns, cfgs[k]);
        assert(server_compatible(cfgs[k], cfgs));
        lemma_pass_cfgs_preserves(s1, ns, cfgs, k + 1, ns, cfgs[k]);
    } else {
        lemma_pass_cfgs_settles(s1, ns, cfgs, k + 1, j);
    }
}

proof fn lemma_pass_preserves(
    s: ClusterView,
    nss: Seq<Seq<char>>,
    cfgs: Seq<ConfigView>,
    k: int,
    nsp: Seq<char>,
    cfgp: ConfigView,
)
    requires
        0 <= k <= nss.len(),
        settled(s, nsp, cfgp),
        server_compatible(cfgp, cfgs),
    ensures
        settled(spec_pass(s, nss, cfgs, k).0, nsp, cfgp),
    decreases nss.len() - k,
{
    if k < nss.len() {
        lemma_pass_cfgs_preserves(s, nss[k], cfgs, 0, nsp, cfgp);
        lemma_pass_preserves(spec_pass_cfgs(s, nss[k], cfgs, 0).0, nss, cfgs, k + 1, nsp, cfgp);
    }
}

proof fn lemma_pass_settles(
    s: ClusterView,
    nss: Seq<Seq<char>>,
    cfgs: Seq<ConfigView>,
    k: int,
    i: int,
    j: int,
)
    requires
        0 <= k <= i < nss.len(),
        0 <= j < cfgs.len(),
        distinct_servers(cfgs),
    ensures
        settled(spec_pass(s, nss, cfgs, k).0, nss[i], cfgs[j]),
    decreases nss.len() - k,
{
    let s1 = spec_pass_cfgs(s, nss[k], cfgs, 0).0;
    if k == i {
        lemma_pass_cfgs_settles(s, nss[k], cfgs, 0, j);
        assert(server_compatible(cfgs[j], cfgs));
        lemma_pass_preserves(s1, nss, cfgs, k + 1, nss[i], cfgs[j]);
    } else {
        lemma_pass_settles(s1, nss, cfgs, k + 1, i, j);
    }
}

proof fn lemma_pass_cfgs_identity(
    s: ClusterView,
    ns: Seq<char>,
    cfgs: Seq<ConfigView>,
    k: int,
)
    requires
        0 <= k <= cfgs.len(),
        forall|j: int| k <= j < cfgs.len() ==> settled(s, ns, cfgs[j]),
    ensures
        spec_pass_cfgs(s, ns, cfgs, k).0 == s,
        forall|t: int|
            0 <= t < spec_pass_cfgs(s, ns, cfgs, k).1.len() ==> !pair_writes(
                spec_pass_cfgs(s, ns, cfgs, k).1[t],
            ),
    decreases cfgs.len() - k,
{
    if k < cfgs.len() {
        assert(settled(s, ns, cfgs[k]));
        lemma_pass_cfgs_identity(s, ns, cfgs, k + 1);
        let one = spec_ensure_pair(s, ns, cfgs[k]);
        let rest = spec_pass_cfgs(s, ns, cfgs, k + 1);
        assert forall|t: int|
            0 <= t < spec_pass_cfgs(s, ns, cfgs, k).1.len() implies !pair_writes(
            spec_pass_cfgs(s, ns, cfgs, k).1[t],
        ) by {
            if t > 0 {
                assert((seq![one.1] + rest.1)[t] == rest.1[t - 1]);
            }
        }
    }
}

proof fn lemma_pass_identity(
    s: ClusterView,
    nss: Seq<Seq<char>>,
    cfgs: Seq<ConfigView>,
    k: int,
)
    requires
        0 <= k <= nss.len(),
        forall|i: int, j: int|
            k <= i < nss.len() && 0 <= j < cfgs.len() ==> settled(s, nss[i], cfgs[j]),
    ensures
        spec_pass(s, nss, cfgs, k).0 == s,
        forall|t: int|
            0 <= t < spec_pass(s, nss, cfgs, k).1.len() ==> !pair_writes(
                spec_pass(s, nss, cfgs, k).1[t],
            ),
    decreases nss.len() - k,
{
    if k < nss.len() {
        assert forall|j: int| 0 <= j < cfgs.len() implies settled(s, nss[k], cfgs[j]) by {
            assert(settled(s, nss[k], cfgs[j]));
        }
        lemma_pass_cfgs_identity(s, nss[k], cfgs, 0);
        lemma_pass_identity(s, nss, cfgs, k + 1);
        let one = spec_pass_cfgs(s, nss[k], cfgs, 0);
        let rest = spec_pass(s, nss, cfgs, k + 1);
        assert forall|t: int|
            0 <= t < spec_pass(s, nss, cfgs, k).1.len() implies !pair_writes(
            spec_pass(s, nss, cfgs, k).1[t],
        ) by {
            if t < one.1.len() {
                assert((one.1 + rest.1)[t] == one.1[t]);
            } else {
                assert((one.1 + rest.1)[t] == rest.1[t - one.1.len()]);
            }
        }
    }
}

/// Idempotence of a full convergence pass: when the registry hosts of the
/// credential list are pairwise distinct (the host is its unique key),
/// re-running a pass over the same namespaces and credentials leaves the
/// cluster state untouched and reports no write for any pair.
pub proof fn lemma_pass_idempotent(
    s0: ClusterView,
    nss: Seq<Seq<char>>,
    cfgs: Seq<ConfigView>,
)
    requires
        distinct_servers(cfgs),
    ensures
        ({
            let s1 = spec_pass(s0, nss, cfgs, 0).0;
            let second = spec_pass(s1, nss, cfgs, 0);
            second.0 == s1 && forall|t: int|
                0 <= t < second.1.len() ==> !pair_writes(second.1[t])
        }),
{
    let s1 = spec_pass(s0, nss, cfgs, 0).0;
    assert forall|i: int, j: int|
        0 <= i < nss.len() && 0 <= j < cfgs.len() implies settled(s1, nss[i], cfgs[j]) by {
        lemma_pass_settles(s0, nss, cfgs, 0, i, j);
    }
    lemma_pass_identity(s1, nss, cfgs, 0);
}

} // verus!
