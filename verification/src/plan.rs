//! Per-pair decisions: whether a credential applies to a namespace, what to
//! do to the registry secret, and what to do to the service account's
//! pull-secret list.
//!
//! These functions are pure: the caller reads the cluster objects, hands
//! their content in as plain values, and performs the returned action.

use vstd::prelude::*;
use vstd::string::StringExecFns;

use crate::config::{encoded_payload, Config, RegistryAuth};

verus! {

/// The scope predicate: a credential applies to a namespace when its scope
/// is empty, contains the wildcard token `"*"`, or lists the namespace.
pub open spec fn scope_admits(scope: Seq<Seq<char>>, ns: Seq<char>) -> bool {
    scope.len() == 0 || scope.contains("*"@) || scope.contains(ns)
}

/// The mathematical content of a `Config`.
pub struct ConfigView {
    pub server: Seq<char>,
    pub username: Seq<char>,
    pub password: Seq<char>,
    pub namespaces: Seq<Seq<char>>,
}

impl View for Config {
    type V = ConfigView;

    open spec fn view(&self) -> ConfigView {
        ConfigView {
            server: self.server@,
            username: self.username@,
            password: self.password@,
            namespaces: self.namespaces.deep_view(),
        }
    }
}

impl DeepView for Config {
    type V = ConfigView;

    open spec fn deep_view(&self) -> ConfigView {
        self@
    }
}

/// Whether `cfg` applies to the namespace `ns`.
pub fn in_scope(ns: &String, cfg: &Config) -> (r: bool)
    ensures
        r == scope_admits(cfg@.namespaces, ns@),
{
    if cfg.namespaces.len() == 0 {
        return true;
    }
    let star = String::from_str("*");
    let n = cfg.namespaces.len();
    let mut i: usize = 0;
    while i < n
        invariant
            i <= n,
            n == cfg.namespaces.len(),
            star@ == "*"@,
            forall|j: int|
                0 <= j < i ==> cfg.namespaces.deep_view()[j] != "*"@
                    && cfg.namespaces.deep_view()[j] != ns@,
        decreases n - i,
    {
        if cfg.namespaces[i] == star {
            proof {
                assert(cfg.namespaces.deep_view()[i as int] == "*"@);
            }
            return true;
        }
        if cfg.namespaces[i] == *ns {
            proof {
                assert(cfg.namespaces.deep_view()[i as int] == ns@);
            }
            return true;
        }
        i += 1;
    }
    false
}

/// What a read of the registry secret found: the object is missing, or it
/// exists and holds the given encoded payload under the fixed data key
/// (`None` when the object has no data under that key).
pub enum SecretLookup {
    Missing,
    Found(Option<String>),
}

/// The mathematical content of a `SecretLookup`.
pub enum LookupView {
    Missing,
    Found(Option<Seq<char>>),
}

impl View for SecretLookup {
    type V = LookupView;

    open spec fn view(&self) -> LookupView {
        match self {
            SecretLookup::Missing => LookupView::Missing,
            SecretLookup::Found(d) => LookupView::Found(d.deep_view()),
        }
    }
}

/// What the secret ensurer decides for one (namespace, credential) pair.
///
/// `Skip` means the namespace is out of the credential's scope: nothing is
/// written and the service-account binder is not invoked. `Keep` means the
/// stored payload is already current (or the object lacks the data key):
/// nothing is written, but the binder is still invoked.
#[derive(Debug, PartialEq, Eq)]
pub enum SecretAction {
    Skip,
    Keep,
    Create(String),
    Patch(String),
}

/// The mathematical content of a `SecretAction`.
pub enum ActionView {
    Skip,
    Keep,
    Create(Seq<char>),
    Patch(Seq<char>),
}

impl View for SecretAction {
    type V = ActionView;

    open spec fn view(&self) -> ActionView {
        match self {
            SecretAction::Skip => ActionView::Skip,
            SecretAction::Keep => ActionView::Keep,
            SecretAction::Create(p) => ActionView::Create(p@),
            SecretAction::Patch(p) => ActionView::Patch(p@),
        }
    }
}

/// Whether an action issues a write against the cluster.
pub open spec fn action_writes(a: ActionView) -> bool {
    a is Create || a is Patch
}

/// The decision of the credential secret ensurer: skip when out of scope;
/// otherwise create a missing secret, patch a stale payload, and keep a
/// current one.
pub open spec fn spec_plan_secret(ns: Seq<char>, cfg: ConfigView, stored: LookupView) -> ActionView {
    if !scope_admits(cfg.namespaces, ns) {
        ActionView::Skip
    } else {
        let p = encoded_payload(cfg.server, cfg.username, cfg.password);
        match stored {
            LookupView::Missing => ActionView::Create(p),
            LookupView::Found(d) => match d {
                Option::None => ActionView::Keep,
                Option::Some(cur) => if cur == p {
                    ActionView::Keep
                } else {
                    ActionView::Patch(p)
                },
            },
        }
    }
}

/// Decide what to do to the registry secret for the pair (`ns`, `cfg`),
/// given what a read of the secret named after the registry host found.
pub fn plan_secret(ns: &String, cfg: &Config, stored: &SecretLookup) -> (a: SecretAction)
    ensures
        a@ == spec_plan_secret(ns@, cfg@, stored@),
{
    if !in_scope(ns, cfg) {
        return SecretAction::Skip;
    }
    let auth = RegistryAuth::new(cfg.username.clone(), cfg.password.clone(), cfg.server.clone());
    let payload = auth.base64_encode();
    match stored {
        SecretLookup::Missing => SecretAction::Create(payload),
        SecretLookup::Found(d) => match d {
            Option::None => SecretAction::Keep,
            Option::Some(cur) => {
                if *cur == payload {
                    SecretAction::Keep
                } else {
                    SecretAction::Patch(payload)
                }
            },
        },
    }
}

/// What the secret looks like after the ensurer's action is performed.
pub open spec fn secret_after(stored: LookupView, a: ActionView) -> LookupView {
    match a {
        ActionView::Create(p) => LookupView::Found(Option::Some(p)),
        ActionView::Patch(p) => LookupView::Found(Option::Some(p)),
        _ => stored,
    }
}

/// Idempotence of the credential secret ensurer: once its action has been
/// performed, running it again with unchanged (namespace, credential) never
/// issues a second write. Together with the exact contract of `plan_secret`
/// this bounds two consecutive invocations to at most one write.
pub proof fn lemma_secret_ensure_idempotent(ns: Seq<char>, cfg: ConfigView, stored: LookupView)
    ensures
        !action_writes(
            spec_plan_secret(ns, cfg, secret_after(stored, spec_plan_secret(ns, cfg, stored))),
        ),
{
}

/// Whether the pull-secret reference list already names `name`.
pub open spec fn sa_has_ref(refs: Seq<Option<Seq<char>>>, name: Seq<char>) -> bool {
    exists|i: int| 0 <= i < refs.len() && refs[i] == Option::Some(name)
}

/// The decision of the service-account binder: `None` when a reference with
/// that name is already present; otherwise the complete list to resubmit,
/// the list read plus the one new entry.
pub open spec fn spec_plan_sa(refs: Seq<Option<Seq<char>>>, name: Seq<char>) -> Option<
    Seq<Option<Seq<char>>>,
> {
    if sa_has_ref(refs, name) {
        Option::None
    } else {
        Option::Some(refs.push(Option::Some(name)))
    }
}

/// Decide what to do to the service account's pull-secret list so that it
/// references a pull secret named `name`.
pub fn plan_sa(refs: &Vec<Option<String>>, name: &String) -> (r: Option<Vec<Option<String>>>)
    ensures
        r.deep_view() == spec_plan_sa(refs.deep_view(), name@),
{
    let n = refs.len();
    let mut i: usize = 0;
    let mut copied: Vec<Option<String>> = Vec::new();
    while i < n
        invariant
            i <= n,
            n == refs.len(),
            copied.deep_view() == refs.deep_view().take(i as int),
            forall|j: int| 0 <= j < i ==> refs.deep_view()[j] != Option::Some(name@),
        decreases n - i,
    {
        let elem: Option<String> = match &refs[i] {
            Option::None => Option::None,
            Option::Some(s) => {
                if *s == *name {
                    proof {
                        assert(refs.deep_view()[i as int] == Option::Some(name@));
                    }
                    return Option::None;
                }
                Option::Some(s.clone())
            },
        };
        proof {
            assert(elem.deep_view() == refs.deep_view()[i as int]);
        }
        let ghost prev: Seq<Option<String>> = copied@;
        proof {
            assert(copied.deep_view().len() == i as int);
            assert(prev.len() == i as int);
            assert(forall|j: int|
                0 <= j < i ==> prev[j].deep_view() == refs.deep_view().take(i as int)[j]);
        }
        copied.push(elem);
        proof {
            assert forall|j: int| 0 <= j <= i implies copied.deep_view()[j] == refs.deep_view().take(
                i as int + 1,
            )[j] by {
                if j < i {
                    assert(copied@[j] == prev[j]);
                    assert(prev[j].deep_view() == refs.deep_view().take(i as int)[j]);
                }
            }
            assert(copied.deep_view() =~= refs.deep_view().take(i as int + 1));
        }
        i += 1;
    }
    copied.push(Option::Some(name.clone()));
    proof {
        assert(refs.deep_view().take(n as int) =~= refs.deep_view());
        assert(copied.deep_view() =~= refs.deep_view().push(Option::Some(name@)));
    }
    Option::Some(copied)
}

/// Idempotence of the service-account binder: binding a name mutates the
/// list at most once. A first binding that changes the list appends exactly
/// the one new reference, and a second binding of the same name then
/// changes nothing; a binding that changes nothing found the name present.
pub proof fn lemma_sa_bind_idempotent(refs: Seq<Option<Seq<char>>>, name: Seq<char>)
    ensures
        spec_plan_sa(refs, name) matches Option::Some(r2) ==> r2 == refs.push(Option::Some(name))
            && r2.len() == refs.len() + 1 && spec_plan_sa(r2, name) is None,
        spec_plan_sa(refs, name) is None ==> sa_has_ref(refs, name),
{
    if !sa_has_ref(refs, name) {
        let r2 = refs.push(Option::Some(name));
        assert(r2[refs.len() as int] == Option::Some(name));
        assert(sa_has_ref(r2, name));
    }
}

} // verus!
