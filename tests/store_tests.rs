use plume::account::{account_from_session, GsaAccount};
use plume::error::Error;
use plume::store::AccountStore;

fn account(email: &str, team: &str) -> GsaAccount {
    GsaAccount::new(
        email.to_string(),
        "Jane".to_string(),
        format!("adsid-{}", email),
        format!("token-{}", email),
        team.to_string(),
    )
}

#[test]
fn new_account_keeps_fields() {
    let mut a = account("a@example.com", "");
    assert_eq!(a.email(), "a@example.com");
    assert_eq!(a.first_name(), "Jane");
    assert_eq!(a.adsid(), "adsid-a@example.com");
    assert_eq!(a.xcode_gs_token(), "token-a@example.com");
    assert_eq!(a.team_id(), "");
    a.set_team_id("TEAM1".to_string());
    assert_eq!(a.team_id(), "TEAM1");
    assert_eq!(a.email(), "a@example.com");
}

#[test]
fn account_from_session_takes_first_team() {
    let teams = vec!["T1".to_string(), "T2".to_string()];
    let a = account_from_session(
        "a@example.com".to_string(),
        "Jane".to_string(),
        "id".to_string(),
        "tok".to_string(),
        &teams,
    );
    assert_eq!(a.team_id(), "T1");
    let none: Vec<String> = Vec::new();
    let b = account_from_session(
        "b@example.com".to_string(),
        "Joe".to_string(),
        "id".to_string(),
        "tok".to_string(),
        &none,
    );
    assert_eq!(b.team_id(), "");
    assert_eq!(b.first_name(), "Joe");
}

#[test]
fn add_selects_and_replaces_by_email() {
    let mut store = AccountStore::new(None);
    assert!(store.selected_account().is_none());
    store.accounts_add(account("a@example.com", "T1"));
    store.accounts_add(account("b@example.com", "T2"));
    assert_eq!(store.accounts().len(), 2);
    assert_eq!(store.selected_account().unwrap().email(), "b@example.com");
    store.accounts_add(account("a@example.com", "T3"));
    assert_eq!(store.accounts().len(), 2);
    assert_eq!(store.get_account("a@example.com").unwrap().team_id(), "T3");
    assert_eq!(store.selected_email().unwrap(), "a@example.com");
    assert!(store.get_account("c@example.com").is_none());
}

#[test]
fn select_unknown_email_is_not_found() {
    let mut store = AccountStore::new(None);
    store.accounts_add(account("a@example.com", ""));
    let r = store.account_select("zzz@example.com");
    assert!(matches!(r, Err(Error::NotFound)));
    assert_eq!(store.selected_email().unwrap(), "a@example.com");
    store.accounts_add(account("b@example.com", ""));
    assert!(store.account_select("a@example.com").is_ok());
    assert_eq!(store.selected_account().unwrap().email(), "a@example.com");
}

#[test]
fn removing_selected_account_clears_selection() {
    let mut store = AccountStore::new(None);
    store.accounts_add(account("a@example.com", ""));
    store.accounts_add(account("b@example.com", ""));
    store.accounts_remove("b@example.com");
    assert!(store.selected_email().is_none());
    assert!(store.selected_account().is_none());
    assert_eq!(store.accounts().len(), 1);
    assert!(store.get_account("a@example.com").is_some());
}

#[test]
fn removing_other_account_keeps_selection() {
    let mut store = AccountStore::new(None);
    store.accounts_add(account("a@example.com", ""));
    store.accounts_add(account("b@example.com", ""));
    store.accounts_remove("a@example.com");
    assert_eq!(store.selected_email().unwrap(), "b@example.com");
    store.accounts_remove("nobody@example.com");
    assert_eq!(store.selected_email().unwrap(), "b@example.com");
    assert_eq!(store.accounts().len(), 1);
}

#[test]
fn rebuilding_from_saved_parts_gives_same_store() {
    let mut store = AccountStore::new(Some("/tmp/accounts.json".to_string()));
    store.accounts_add(account("a@example.com", "T1"));
    store.accounts_add(account("b@example.com", "T2"));
    store.account_select("a@example.com").unwrap();
    let saved: Vec<GsaAccount> = store.accounts().clone();
    let back = AccountStore::from_parts(
        store.path().cloned(),
        store.selected_email().cloned(),
        saved,
    );
    assert_eq!(back.accounts().len(), 2);
    assert_eq!(back.selected_email().unwrap(), "a@example.com");
    assert_eq!(back.path().unwrap(), "/tmp/accounts.json");
    assert_eq!(back.get_account("b@example.com").unwrap().team_id(), "T2");
    assert_eq!(back.get_account("a@example.com").unwrap().team_id(), "T1");
}

#[test]
fn rebuilding_drops_dangling_selection_and_duplicates() {
    let accounts = vec![account("a@example.com", "T1"), account("a@example.com", "T9")];
    let store = AccountStore::from_parts(None, Some("ghost@example.com".to_string()), accounts);
    assert_eq!(store.accounts().len(), 1);
    assert_eq!(store.get_account("a@example.com").unwrap().team_id(), "T9");
    assert!(store.selected_email().is_none());
    assert!(store.path().is_none());
}
