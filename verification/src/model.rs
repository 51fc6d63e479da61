//! A plain-value model of the cluster objects the agent reads and writes:
//! registry credential secrets and the per-namespace default service
//! account's pull-secret list.
//!
//! The credential secret for a pair lives in the target namespace: it is
//! read, created and patched there, so the create and update branches of
//! the ensurer agree on one scope.

use vstd::prelude::*;

verus! {

/// A registry credential secret: the namespace it lives in, its name (the
/// registry host), and the encoded payload stored under the fixed data
/// key, if the object carries one.
pub struct SecretRecord {
    pub namespace: String,
    pub name: String,
    pub payload: Option<String>,
}

/// The mathematical content of a `SecretRecord`.
pub struct SecretRecordView {
    pub namespace: Seq<char>,
    pub name: Seq<char>,
    pub payload: Option<Seq<char>>,
}

impl View for SecretRecord {
    type V = SecretRecordView;

    open spec fn view(&self) -> SecretRecordView {
        SecretRecordView {
            namespace: self.namespace@,
            name: self.name@,
            payload: self.payload.deep_view(),
        }
    }
}

impl DeepView for SecretRecord {
    type V = SecretRecordView;

    open spec fn deep_view(&self) -> SecretRecordView {
        self@
    }
}

/// A namespace's default service account: the namespace name and the
/// ordered list of pull-secret name references it carries.
pub struct AccountRecord {
    pub namespace: String,
    pub pull_secrets: Vec<Option<String>>,
}

/// The mathematical content of an `AccountRecord`.
pub struct AccountRecordView {
    pub namespace: Seq<char>,
    pub pull_secrets: Seq<Option<Seq<char>>>,
}

impl View for AccountRecord {
    type V = AccountRecordView;

    open spec fn view(&self) -> AccountRecordView {
        AccountRecordView {
            namespace: self.namespace@,
            pull_secrets: self.pull_secrets.deep_view(),
        }
    }
}

impl DeepView for AccountRecord {
    type V = AccountRecordView;

    open spec fn deep_view(&self) -> AccountRecordView {
        self@
    }
}

/// Everything of the cluster state that a convergence pass touches.
pub struct ClusterModel {
    pub secrets: Vec<SecretRecord>,
    pub accounts: Vec<AccountRecord>,
}

/// The mathematical content of a `ClusterModel`.
pub struct ClusterView {
    pub secrets: Seq<SecretRecordView>,
    pub accounts: Seq<AccountRecordView>,
}

impl View for ClusterModel {
    type V = ClusterView;

    open spec fn view(&self) -> ClusterView {
        ClusterView { secrets: self.secrets.deep_view(), accounts: self.accounts.deep_view() }
    }
}

/// The index of the first secret at or after `k` that lives in `ns` under
/// the name `name`.
pub open spec fn spec_find_secret(
    s: Seq<SecretRecordView>,
    ns: Seq<char>,
    name: Seq<char>,
    k: int,
) -> Option<int>
    decreases s.len() - k,
{
    if k < 0 || k >= s.len() {
        Option::None
    } else if s[k].namespace == ns && s[k].name == name {
        Option::Some(k)
    } else {
        spec_find_secret(s, ns, name, k + 1)
    }
}

/// The index of the first account record at or after `k` for namespace `ns`.
pub open spec fn spec_find_account(s: Seq<AccountRecordView>, ns: Seq<char>, k: int) -> Option<int>
    decreases s.len() - k,
{
    if k < 0 || k >= s.len() {
        Option::None
    } else if s[k].namespace == ns {
        Option::Some(k)
    } else {
        spec_find_account(s, ns, k + 1)
    }
}

/// Find the first secret in `ns` named `name`, scanning from index `k`.
pub fn find_secret(secrets: &Vec<SecretRecord>, ns: &String, name: &String, k: usize) -> (r: Option<
    usize,
>)
    requires
        k <= secrets.len(),
    ensures
        spec_find_secret(secrets.deep_view(), ns@, name@, k as int) == (match r {
            Option::Some(i) => Option::Some(i as int),
            Option::None => Option::<int>::None,
        }),
        r matches Option::Some(i) ==> k <= i < secrets.len(),
    decreases secrets.len() - k,
{
    if k == secrets.len() {
        return Option::None;
    }
    if secrets[k].namespace == *ns && secrets[k].name == *name {
        proof {
            assert(secrets.deep_view()[k as int] == secrets@[k as int]@);
        }
        return Option::Some(k);
    }
    proof {
        assert(secrets.deep_view()[k as int] == secrets@[k as int]@);
    }
    find_secret(secrets, ns, name, k + 1)
}

/// Find the first account record for namespace `ns`, scanning from index `k`.
pub fn find_account(accounts: &Vec<AccountRecord>, ns: &String, k: usize) -> (r: Option<usize>)
    requires
        k <= accounts.len(),
    ensures
        spec_find_account(accounts.deep_view(), ns@, k as int) == (match r {
            Option::Some(i) => Option::Some(i as int),
            Option::None => Option::<int>::None,
        }),
        r matches Option::Some(i) ==> k <= i < accounts.len(),
    decreases accounts.len() - k,
{
    if k == accounts.len() {
        return Option::None;
    }
    if accounts[k].namespace == *ns {
        proof {
            assert(accounts.deep_view()[k as int] == accounts@[k as int]@);
        }
        return Option::Some(k);
    }
    proof {
        assert(accounts.deep_view()[k as int] == accounts@[k as int]@);
    }
    find_account(accounts, ns, k + 1)
}

} // verus!
