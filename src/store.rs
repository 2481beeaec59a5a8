use vstd::prelude::*;

use crate::account::{GsaAccount, GsaAccountView};
use crate::error::Error;

verus! {

/// Whether some account in `s` has the email `e`.
pub open spec fn has_email(s: Seq<GsaAccountView>, e: Seq<char>) -> bool {
    exists|i: int| 0 <= i < s.len() && #[trigger] s[i].email == e
}

/// No two accounts in `s` share an email.
pub open spec fn emails_unique(s: Seq<GsaAccountView>) -> bool {
    forall|i: int, j: int|
        0 <= i < s.len() && 0 <= j < s.len() && #[trigger] s[i].email == #[trigger] s[j].email
            ==> i == j
}

/// The account of `s` whose email is `e` (meaningful where `has_email(s, e)`).
pub open spec fn account_with(s: Seq<GsaAccountView>, e: Seq<char>) -> GsaAccountView {
    s[choose|i: int| 0 <= i < s.len() && #[trigger] s[i].email == e]
}

/// The accounts of `s` keyed by email.
pub open spec fn account_map(s: Seq<GsaAccountView>) -> Map<Seq<char>, GsaAccountView> {
    Map::new(|e: Seq<char>| has_email(s, e), |e: Seq<char>| account_with(s, e))
}


/// The accounts of `s` keyed by email, where a later account replaces an
/// earlier one with the same email.
pub open spec fn keyed(s: Seq<GsaAccountView>) -> Map<Seq<char>, GsaAccountView>
    decreases s.len(),
{
    if s.len() == 0 {
        Map::empty()
    } else {
        keyed(s.drop_last()).insert(s.last().email, s.last())
    }
}

/// The store rebuilt from a file that held `path`, the selected email
/// `selected` and the accounts `records`: a selection that names no stored
/// account is dropped.
pub open spec fn restored(
    path: Option<Seq<char>>,
    selected: Option<Seq<char>>,
    records: Seq<GsaAccountView>,
) -> AccountStoreView {
    AccountStoreView {
        accounts: keyed(records),
        selected: match selected {
            Some(e) => if keyed(records).contains_key(e) {
                Some(e)
            } else {
                None
            },
            None => None,
        },
        path,
    }
}

proof fn lemma_keyed_unique(s: Seq<GsaAccountView>)
    requires
        emails_unique(s),
    ensures
        keyed(s) == account_map(s),
    decreases s.len(),
{
    if s.len() == 0 {
        assert(account_map(s) =~= Map::empty());
    } else {
        let p = s.drop_last();
        let n = p.len() as int;
        assert(emails_unique(p)) by {
            assert forall|x: int, y: int|
                0 <= x < p.len() && 0 <= y < p.len() && #[trigger] p[x].email
                    == #[trigger] p[y].email implies x == y by {
                assert(s[x].email == s[y].email);
            }
        }
        if has_email(p, s.last().email) {
            let j = choose|j: int| 0 <= j < p.len() && #[trigger] p[j].email == s.last().email;
            assert(s[j].email == s[n].email);
        }
        lemma_keyed_unique(p);
        lemma_push_map(p, s.last());
        assert(p.push(s.last()) =~= s);
    }
}

/// The store as a mapping from email to account, the selected email and the
/// file it is kept in.
pub struct AccountStoreView {
    pub accounts: Map<Seq<char>, GsaAccountView>,
    pub selected: Option<Seq<char>>,
    pub path: Option<Seq<char>>,
}

/// The durable set of developer accounts, keyed by email, with at most one
/// of them selected.
#[derive(Debug)]
pub struct AccountStore {
    selected_account: Option<String>,
    accounts: Vec<GsaAccount>,
    path: Option<String>,
}

proof fn lemma_unique_lookup(s: Seq<GsaAccountView>, i: int)
    requires
        emails_unique(s),
        0 <= i < s.len(),
    ensures
        has_email(s, s[i].email),
        account_with(s, s[i].email) == s[i],
{
    let e = s[i].email;
    assert(s[i].email == e);
    let j = choose|j: int| 0 <= j < s.len() && #[trigger] s[j].email == e;
    assert(s[j].email == s[i].email);
}


proof fn lemma_update_map(s: Seq<GsaAccountView>, i: int, a: GsaAccountView)
    requires
        emails_unique(s),
        0 <= i < s.len(),
        a.email == s[i].email,
    ensures
        emails_unique(s.update(i, a)),
        account_map(s.update(i, a)) == account_map(s).insert(a.email, a),
{
    let t = s.update(i, a);
    assert(emails_unique(t)) by {
        assert forall|x: int, y: int|
            0 <= x < t.len() && 0 <= y < t.len() && #[trigger] t[x].email == #[trigger] t[y].email
            implies x == y by {
            assert(t[x].email == s[x].email);
            assert(t[y].email == s[y].email);
        }
    }
    let target = account_map(s).insert(a.email, a);
    assert forall|k: Seq<char>| #[trigger] account_map(t).contains_key(k) == target.contains_key(k)
        by {
        if has_email(t, k) {
            let j = choose|j: int| 0 <= j < t.len() && #[trigger] t[j].email == k;
            assert(s[j].email == k);
        }
        if has_email(s, k) {
            let j = choose|j: int| 0 <= j < s.len() && #[trigger] s[j].email == k;
            assert(t[j].email == k);
        }
        if k == a.email {
            assert(t[i].email == k);
        }
    }
    assert forall|k: Seq<char>| #[trigger] account_map(t).contains_key(k) implies account_map(
        t,
    )[k] == target[k] by {
        let j = choose|j: int| 0 <= j < t.len() && #[trigger] t[j].email == k;
        lemma_unique_lookup(t, j);
        if j != i {
            lemma_unique_lookup(s, j);
        }
    }
    assert(account_map(t) =~= target);
}

proof fn lemma_push_map(s: Seq<GsaAccountView>, a: GsaAccountView)
    requires
        emails_unique(s),
        !has_email(s, a.email),
    ensures
        emails_unique(s.push(a)),
        account_map(s.push(a)) == account_map(s).insert(a.email, a),
{
    let t = s.push(a);
    let n = s.len() as int;
    assert(emails_unique(t)) by {
        assert forall|x: int, y: int|
            0 <= x < t.len() && 0 <= y < t.len() && #[trigger] t[x].email == #[trigger] t[y].email
            implies x == y by {
            if x < n && y == n {
                assert(s[x].email == a.email);
            } else if y < n && x == n {
                assert(s[y].email == a.email);
            } else if x < n && y < n {
                assert(s[x].email == s[y].email);
            }
        }
    }
    let target = account_map(s).insert(a.email, a);
    assert forall|k: Seq<char>| #[trigger] account_map(t).contains_key(k) == target.contains_key(k)
        by {
        if has_email(t, k) {
            let j = choose|j: int| 0 <= j < t.len() && #[trigger] t[j].email == k;
            if j < n {
                assert(s[j].email == k);
            }
        }
        if has_email(s, k) {
            let j = choose|j: int| 0 <= j < s.len() && #[trigger] s[j].email == k;
            assert(t[j].email == k);
        }
        if k == a.email {
            assert(t[n].email == k);
        }
    }
    assert forall|k: Seq<char>| #[trigger] account_map(t).contains_key(k) implies account_map(
        t,
    )[k] == target[k] by {
        let j = choose|j: int| 0 <= j < t.len() && #[trigger] t[j].email == k;
        lemma_unique_lookup(t, j);
        if j < n {
            assert(s[j] == t[j]);
            lemma_unique_lookup(s, j);
        }
    }
    assert(account_map(t) =~= target);
}

proof fn lemma_remove_map(s: Seq<GsaAccountView>, i: int)
    requires
        emails_unique(s),
        0 <= i < s.len(),
    ensures
        emails_unique(s.remove(i)),
        account_map(s.remove(i)) == account_map(s).remove(s[i].email),
{
    let t = s.remove(i);
    let e = s[i].email;
    assert forall|x: int| 0 <= x < t.len() implies #[trigger] t[x] == s[if x < i {
        x
    } else {
        x + 1
    }] by {}
    assert(emails_unique(t)) by {
        assert forall|x: int, y: int|
            0 <= x < t.len() && 0 <= y < t.len() && #[trigger] t[x].email == #[trigger] t[y].email
            implies x == y by {
            let xs = if x < i { x } else { x + 1 };
            let ys = if y < i { y } else { y + 1 };
            assert(s[xs].email == s[ys].email);
        }
    }
    let target = account_map(s).remove(e);
    assert forall|k: Seq<char>| #[trigger] account_map(t).contains_key(k) == target.contains_key(k)
        by {
        if has_email(t, k) {
            let j = choose|j: int| 0 <= j < t.len() && #[trigger] t[j].email == k;
            let js = if j < i { j } else { j + 1 };
            assert(s[js].email == k);
            assert(js != i);
        }
        if has_email(s, k) && k != e {
            let j = choose|j: int| 0 <= j < s.len() && #[trigger] s[j].email == k;
            assert(j != i);
            let jt = if j < i { j } else { j - 1 };
            assert(t[jt].email == k);
        }
    }
    assert forall|k: Seq<char>| #[trigger] account_map(t).contains_key(k) implies account_map(
        t,
    )[k] == target[k] by {
        let j = choose|j: int| 0 <= j < t.len() && #[trigger] t[j].email == k;
        lemma_unique_lookup(t, j);
        let js = if j < i { j } else { j + 1 };
        assert(s[js] == t[j]);
        lemma_unique_lookup(s, js);
    }
    assert(account_map(t) =~= target);
}

impl AccountStore {
    /// The accounts as plain records, in the order they are kept.
    pub closed spec fn records(&self) -> Seq<GsaAccountView> {
        self.accounts@.map_values(|a: GsaAccount| a@)
    }

    pub closed spec fn view(&self) -> AccountStoreView {
        AccountStoreView {
            accounts: account_map(self.records()),
            selected: match self.selected_account {
                Some(e) => Some(e@),
                None => None,
            },
            path: match self.path {
                Some(p) => Some(p@),
                None => None,
            },
        }
    }

    /// Emails are unique and the selected email, if any, is a key of the store.
    pub closed spec fn wf(&self) -> bool {
        &&& emails_unique(self.records())
        &&& match self.selected_account {
            Some(e) => has_email(self.records(), e@),
            None => true,
        }
    }

    /// An empty store with nothing selected, kept at `path`.
    pub fn new(path: Option<String>) -> (r: Self)
        ensures
            r.wf(),
            r.view().accounts == Map::<Seq<char>, GsaAccountView>::empty(),
            r.view().selected is None,
            r.view().path == (match path {
                Some(p) => Some(p@),
                None => None,
            }),
    {
        let r = AccountStore { selected_account: None, accounts: Vec::new(), path };
        assert(r.view().accounts =~= Map::<Seq<char>, GsaAccountView>::empty());
        r
    }


    proof fn lemma_records_index(&self, i: int)
        requires
            0 <= i < self.accounts@.len(),
        ensures
            self.records().len() == self.accounts@.len(),
            self.records()[i] == self.accounts@[i]@,
    {
    }

    /// The stored accounts, each under a distinct email.
    pub fn accounts(&self) -> (r: &Vec<GsaAccount>)
        requires
            self.wf(),
        ensures
            r@.len() == self.records().len(),
            forall|i: int| 0 <= i < r@.len() ==> #[trigger] r@[i]@ == self.records()[i],
            forall|i: int|
                0 <= i < r@.len() ==> #[trigger] self.view().accounts.contains_key(r@[i]@.email)
                    && self.view().accounts[r@[i]@.email] == r@[i]@,
            forall|e: Seq<char>|
                #[trigger] self.view().accounts.contains_key(e) ==> exists|i: int|
                    0 <= i < r@.len() && #[trigger] r@[i]@.email == e,
    {
        assert forall|i: int| 0 <= i < self.accounts@.len() implies #[trigger] self.view().accounts.contains_key(
            self.accounts@[i]@.email,
        ) && self.view().accounts[self.accounts@[i]@.email] == self.accounts@[i]@ by {
            self.lemma_records_index(i);
            lemma_unique_lookup(self.records(), i);
        }
        assert forall|e: Seq<char>| #[trigger] self.view().accounts.contains_key(e) implies exists|
            i: int,
        | 0 <= i < self.accounts@.len() && #[trigger] self.accounts@[i]@.email == e by {
            let j = choose|j: int| 0 <= j < self.records().len() && #[trigger] self.records()[j].email == e;
            self.lemma_records_index(j);
        }
        &self.accounts
    }

    /// The account stored under `email`, if any.
    pub fn get_account(&self, email: &str) -> (r: Option<&GsaAccount>)
        requires
            self.wf(),
        ensures
            match r {
                Some(a) => self.view().accounts.contains_key(email@) && a@ == self.view().accounts[email@],
                None => !self.view().accounts.contains_key(email@),
            },
    {
        let key = email.to_owned();
        match self.position(&key) {
            Some(i) => {
                proof {
                    self.lemma_records_index(i as int);
                    lemma_unique_lookup(self.records(), i as int);
                }
                Some(&self.accounts[i])
            },
            None => None,
        }
    }

    /// The selected account, if one is selected.
    pub fn selected_account(&self) -> (r: Option<&GsaAccount>)
        requires
            self.wf(),
        ensures
            match self.view().selected {
                Some(e) => r is Some && self.view().accounts.contains_key(e) && r->0@ == self.view().accounts[e],
                None => r is None,
            },
    {
        match &self.selected_account {
            Some(e) => {
                let i = self.position(e);
                match i {
                    Some(i) => {
                        proof {
                            self.lemma_records_index(i as int);
                            lemma_unique_lookup(self.records(), i as int);
                        }
                        Some(&self.accounts[i])
                    },
                    None => None,
                }
            },
            None => None,
        }
    }

    /// The email of the selected account, if one is selected.
    pub fn selected_email(&self) -> (r: Option<&String>)
        ensures
            match r {
                Some(e) => self.view().selected == Some(e@),
                None => self.view().selected is None,
            },
    {
        self.selected_account.as_ref()
    }

    /// The file the store is kept in, if it has one.
    pub fn path(&self) -> (r: Option<&String>)
        ensures
            match r {
                Some(p) => self.view().path == Some(p@),
                None => self.view().path is None,
            },
    {
        self.path.as_ref()
    }

    /// Stores `account` under its email, replacing an account with the same
    /// email, and selects it.
    pub fn accounts_add(&mut self, account: GsaAccount)
        requires
            old(self).wf(),
        ensures
            final(self).wf(),
            final(self).view().accounts == old(self).view().accounts.insert(account@.email, account@),
            final(self).view().selected == Some(account@.email),
            final(self).view().path == old(self).view().path,
    {
        let email = account.email().clone();
        let ghost a = account@;
        match self.position(&email) {
            Some(i) => {
                proof {
                    self.lemma_records_index(i as int);
                    lemma_update_map(self.records(), i as int, a);
                }
                self.accounts.set(i, account);
                proof {
                    assert(self.records() =~= old(self).records().update(i as int, a));
                }
            },
            None => {
                proof {
                    lemma_push_map(self.records(), a);
                }
                self.accounts.push(account);
                proof {
                    assert(self.records() =~= old(self).records().push(a));
                }
            },
        }
        assert(account_map(self.records()).contains_key(a.email));
        self.selected_account = Some(email);
    }


    /// Removes the account stored under `email`, if any; the selection is
    /// cleared when it named that account and kept otherwise.
    pub fn accounts_remove(&mut self, email: &str)
        requires
            old(self).wf(),
        ensures
            final(self).wf(),
            final(self).view().accounts == old(self).view().accounts.remove(email@),
            final(self).view().selected == (if old(self).view().selected == Some(email@) {
                None
            } else {
                old(self).view().selected
            }),
            final(self).view().path == old(self).view().path,
    {
        let key = email.to_owned();
        match self.position(&key) {
            Some(i) => {
                proof {
                    self.lemma_records_index(i as int);
                    lemma_remove_map(self.records(), i as int);
                }
                let _ = self.accounts.remove(i);
                proof {
                    assert(self.records() =~= old(self).records().remove(i as int));
                }
            },
            None => {
                assert(old(self).view().accounts.remove(email@) =~= old(self).view().accounts);
            },
        }
        let clear = match &self.selected_account {
            Some(e) => e.eq(&key),
            None => false,
        };
        if clear {
            self.selected_account = None;
        }
        proof {
            match self.view().selected {
                Some(e) => {
                    assert(account_map(old(self).records()).contains_key(e));
                    assert(account_map(self.records()).contains_key(e));
                },
                None => {},
            }
        }
    }

    /// Selects the account stored under `email`; fails with `NotFound`, and
    /// changes nothing, when no account has that email.
    pub fn account_select(&mut self, email: &str) -> (r: Result<(), Error>)
        requires
            old(self).wf(),
        ensures
            final(self).wf(),
            final(self).view().accounts == old(self).view().accounts,
            final(self).view().path == old(self).view().path,
            old(self).view().accounts.contains_key(email@) ==> r is Ok && final(self).view().selected
                == Some(email@),
            !old(self).view().accounts.contains_key(email@) ==> (r matches Err(Error::NotFound))
                && final(self).view().selected == old(self).view().selected,
    {
        let key = email.to_owned();
        match self.position(&key) {
            Some(i) => {
                proof {
                    self.lemma_records_index(i as int);
                    lemma_unique_lookup(self.records(), i as int);
                }
                self.selected_account = Some(key);
                Ok(())
            },
            None => Err(Error::NotFound),
        }
    }

    /// Rebuilds a store from what its file holds: the accounts are keyed by
    /// their emails, a later one replacing an earlier one with the same email,
    /// and a selection that names no stored account is dropped.
    pub fn from_parts(path: Option<String>, selected: Option<String>, accounts: Vec<GsaAccount>) -> (r: Self)
        ensures
            r.wf(),
            r.view() == restored(
                match path {
                    Some(p) => Some(p@),
                    None => None,
                },
                match selected {
                    Some(e) => Some(e@),
                    None => None,
                },
                accounts@.map_values(|a: GsaAccount| a@),
            ),
    {
        let ghost input = accounts@.map_values(|a: GsaAccount| a@);
        let mut store = AccountStore { selected_account: None, accounts: Vec::new(), path };
        assert(account_map(store.records()) =~= keyed(input.subrange(0, 0)));
        let mut rest = accounts;
        let ghost n = input.len();
        while rest.len() > 0
            invariant
                store.wf(),
                store.selected_account is None,
                n == input.len(),
                rest@.len() <= n,
                forall|j: int| 0 <= j < rest@.len() ==> #[trigger] rest@[j]@ == input[n - rest@.len() + j],
                account_map(store.records()) == keyed(input.subrange(0, n - rest@.len())),
                store.path == path,
            decreases rest@.len(),
        {
            let ghost k = n - rest@.len();
            let a = rest.remove(0);
            let ghost av = a@;
            assert(av == input[k]);
            let email = a.email().clone();
            match store.position(&email) {
                Some(i) => {
                    proof {
                        store.lemma_records_index(i as int);
                        lemma_update_map(store.records(), i as int, av);
                    }
                    let ghost before = store.records();
                    store.accounts.set(i, a);
                    assert(store.records() =~= before.update(i as int, av));
                },
                None => {
                    proof {
                        lemma_push_map(store.records(), av);
                    }
                    let ghost before = store.records();
                    store.accounts.push(a);
                    assert(store.records() =~= before.push(av));
                },
            }
            assert(input.subrange(0, k + 1).drop_last() =~= input.subrange(0, k));
        }
        assert(input.subrange(0, n as int) =~= input);
        match selected {
            Some(e) => {
                let found = store.position(&e);
                if found.is_some() {
                    store.selected_account = Some(e);
                }
            },
            None => {},
        }
        store
    }


    /// Saving a store and loading it back gives the same accounts, the same
    /// selected email and the same path: rebuilding from the stored records,
    /// selection and path reproduces the store.
    pub proof fn lemma_save_load_round_trip(&self)
        requires
            self.wf(),
        ensures
            restored(self.view().path, self.view().selected, self.records()) == self.view(),
    {
        lemma_keyed_unique(self.records());
        match self.selected_account {
            Some(e) => {
                assert(account_map(self.records()).contains_key(e@));
            },
            None => {},
        }
    }

    /// Index of the account whose email is `email`.
    fn position(&self, email: &String) -> (r: Option<usize>)
        requires
            self.wf(),
        ensures
            match r {
                Some(i) => i < self.accounts@.len() && self.records()[i as int].email == email@,
                None => !has_email(self.records(), email@),
            },
    {
        let mut i: usize = 0;
        while i < self.accounts.len()
            invariant
                i <= self.accounts@.len(),
                self.records().len() == self.accounts@.len(),
                forall|j: int| 0 <= j < i ==> #[trigger] self.records()[j].email != email@,
            decreases self.accounts@.len() - i,
        {
            assert(self.records()[i as int] == self.accounts@[i as int]@);
            if self.accounts[i].email().eq(email) {
                return Some(i);
            }
            i = i + 1;
        }
        None
    }
}

} // verus!
