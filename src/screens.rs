use vstd::prelude::*;
use vstd::string::*;

verus! {

/// The screens of the desktop front end.
#[derive(Debug, Clone, Copy, PartialEq, Eq, Structural)]
pub enum ImpactorScreenType {
    Main,
    Utilities,
    Settings,
    Installer,
    Progress,
}

/// A developer team: its display name and its id.
#[derive(Debug, Clone)]
pub struct Team {
    pub name: String,
    pub id: String,
}

/// How a team is listed: `name (id)`.
pub open spec fn team_label(name: Seq<char>, id: Seq<char>) -> Seq<char> {
    name + " ("@ + id + ")"@
}

impl Team {
    /// The team as it is listed, such as `Jane Doe (ABCDE12345)`.
    pub fn label(&self) -> (r: String)
        ensures
            r@ == team_label(self.name@, self.id@),
    {
        let mut s = self.name.clone();
        s.append(" (");
        s.append(self.id.as_str());
        s.append(")");
        s
    }
}

/// The teams fetched for one account.
#[derive(Debug)]
pub struct AccountTeams {
    pub email: String,
    pub teams: Vec<Team>,
}

/// `i` is the first entry of `s` for the account `email`.
pub open spec fn is_first_entry(s: Seq<AccountTeams>, email: Seq<char>, i: int) -> bool {
    &&& 0 <= i < s.len()
    &&& s[i].email@ == email
    &&& forall|j: int| 0 <= j < i ==> #[trigger] s[j].email@ != email
}

/// The teams fetched for `email`, if any were.
pub open spec fn teams_of(s: Seq<AccountTeams>, email: Seq<char>) -> Option<Seq<Team>> {
    if exists|i: int| is_first_entry(s, email, i) {
        Some(s[choose|i: int| is_first_entry(s, email, i)].teams@)
    } else {
        None
    }
}


proof fn lemma_first_entry_unique(s: Seq<AccountTeams>, email: Seq<char>, i: int)
    requires
        is_first_entry(s, email, i),
    ensures
        teams_of(s, email) == Some(s[i].teams@),
{
    let k = choose|k: int| is_first_entry(s, email, k);
    if k < i {
        assert(s[k].email@ != email);
    } else if k > i {
        assert(s[i].email@ != email);
    }
}

/// Where `t` agrees with `s` on every entry but possibly one for another
/// account than `e`, and is at least as long, the teams of `e` are the same.
proof fn lemma_same_first_entries(s: Seq<AccountTeams>, t: Seq<AccountTeams>, e: Seq<char>)
    requires
        s.len() <= t.len(),
        forall|j: int| 0 <= j < s.len() ==> (#[trigger] t[j] == s[j] || (t[j].email@ != e && s[j].email@ != e)),
        forall|j: int| s.len() <= j < t.len() ==> #[trigger] t[j].email@ != e,
    ensures
        teams_of(t, e) == teams_of(s, e),
{
    if exists|k: int| is_first_entry(s, e, k) {
        let k = choose|k: int| is_first_entry(s, e, k);
        assert(t[k] == s[k]);
        assert forall|j: int| 0 <= j < k implies #[trigger] t[j].email@ != e by {
            assert(s[j].email@ != e);
        }
        assert(is_first_entry(t, e, k));
        lemma_first_entry_unique(s, e, k);
        lemma_first_entry_unique(t, e, k);
    } else if exists|k: int| is_first_entry(t, e, k) {
        let k = choose|k: int| is_first_entry(t, e, k);
        assert(k < s.len());
        assert(t[k] == s[k]);
        assert forall|j: int| 0 <= j < k implies #[trigger] s[j].email@ != e by {
            assert(t[j].email@ != e);
        }
        assert(is_first_entry(s, e, k));
    }
}

/// The state of the settings screen: the teams fetched per account, and the
/// account whose teams are being fetched.
#[derive(Debug)]
pub struct SettingsScreen {
    teams: Vec<AccountTeams>,
    loading_teams: Option<String>,
}

impl SettingsScreen {
    pub closed spec fn cached(&self) -> Seq<AccountTeams> {
        self.teams@
    }

    pub closed spec fn loading(&self) -> Option<Seq<char>> {
        match self.loading_teams {
            Some(e) => Some(e@),
            None => None,
        }
    }

    /// Nothing fetched, nothing being fetched.
    pub fn new() -> (r: Self)
        ensures
            r.cached().len() == 0,
            r.loading() is None,
    {
        SettingsScreen { teams: Vec::new(), loading_teams: None }
    }

    /// Marks the teams of `email` as being fetched.
    pub fn fetch_teams(&mut self, email: String)
        ensures
            final(self).cached() == old(self).cached(),
            final(self).loading() == Some(email@),
    {
        self.loading_teams = Some(email);
    }

    /// Records the teams fetched for `email`, replacing earlier ones, and ends
    /// the fetch.
    pub fn teams_loaded(&mut self, email: String, teams: Vec<Team>)
        ensures
            teams_of(final(self).cached(), email@) == Some(teams@),
            forall|e: Seq<char>|
                e != email@ ==> #[trigger] teams_of(final(self).cached(), e) == teams_of(
                    old(self).cached(),
                    e,
                ),
            final(self).loading() is None,
    {
        let ghost s = self.teams@;
        let ghost ev = email@;
        let ghost tv = teams@;
        let pos = self.position(&email);
        if let Some(i) = pos {
            self.teams.set(i, AccountTeams { email, teams });
            proof {
                let t = self.teams@;
                assert(t[i as int].email@ == ev);
                assert forall|j: int| 0 <= j < i implies #[trigger] t[j].email@ != ev by {
                    assert(t[j] == s[j]);
                }
                assert(is_first_entry(t, ev, i as int));
                lemma_first_entry_unique(t, ev, i as int);
                assert forall|e: Seq<char>| e != ev implies #[trigger] teams_of(t, e) == teams_of(s, e) by {
                    assert forall|j: int| 0 <= j < t.len() && j != i implies #[trigger] t[j] == s[j] by {}
                    lemma_same_first_entries(s, t, e);
                }
            }
        } else {
            self.teams.push(AccountTeams { email, teams });
            proof {
                let t = self.teams@;
                let n = s.len() as int;
                assert(t[n].email@ == ev);
                assert forall|j: int| 0 <= j < n implies #[trigger] t[j].email@ != ev by {
                    assert(t[j] == s[j]);
                }
                assert(is_first_entry(t, ev, n));
                lemma_first_entry_unique(t, ev, n);
                assert forall|e: Seq<char>| e != ev implies #[trigger] teams_of(t, e) == teams_of(s, e) by {
                    assert forall|j: int| 0 <= j < n implies #[trigger] t[j] == s[j] by {}
                    lemma_same_first_entries(s, t, e);
                }
            }
        }
        self.loading_teams = None;
    }

    fn position(&self, email: &String) -> (r: Option<usize>)
        ensures
            match r {
                Some(i) => is_first_entry(self.teams@, email@, i as int),
                None => forall|j: int| 0 <= j < self.teams@.len() ==> #[trigger] self.teams@[j].email@ != email@,
            },
    {
        let mut i: usize = 0;
        while i < self.teams.len()
            invariant
                i <= self.teams@.len(),
                forall|j: int| 0 <= j < i ==> #[trigger] self.teams@[j].email@ != email@,
            decreases self.teams@.len() - i,
        {
            if self.teams[i].email.eq(email) {
                return Some(i);
            }
            i = i + 1;
        }
        None
    }

    /// The teams fetched for `email`, if any were.
    pub fn teams_for(&self, email: &str) -> (r: Option<&Vec<Team>>)
        ensures
            match r {
                Some(t) => teams_of(self.cached(), email@) == Some(t@),
                None => teams_of(self.cached(), email@) is None,
            },
    {
        let key = email.to_owned();
        match self.position(&key) {
            Some(i) => {
                proof {
                    lemma_first_entry_unique(self.teams@, email@, i as int);
                }
                Some(&self.teams[i].teams)
            },
            None => {
                assert(!exists|k: int| is_first_entry(self.teams@, email@, k));
                None
            },
        }
    }

    /// The account whose teams are being fetched, if any.
    pub fn loading_teams(&self) -> (r: Option<&String>)
        ensures
            match r {
                Some(e) => self.loading() == Some(e@),
                None => self.loading() is None,
            },
    {
        self.loading_teams.as_ref()
    }
}

/// The state of the team picker: the teams offered and the one picked.
#[derive(Debug)]
pub struct TeamSelectionWindow {
    teams: Vec<String>,
    pub selected_index: Option<usize>,
}

impl TeamSelectionWindow {
    pub closed spec fn offered(&self) -> Seq<String> {
        self.teams@
    }

    pub closed spec fn picked(&self) -> Option<usize> {
        self.selected_index
    }

    /// Offers `teams`, none of them picked.
    pub fn new(teams: Vec<String>) -> (r: Self)
        ensures
            r.offered() == teams@,
            r.picked() is None,
    {
        TeamSelectionWindow { teams, selected_index: None }
    }

    /// Picks the team at `index`.
    pub fn select_team(&mut self, index: usize)
        ensures
            final(self).offered() == old(self).offered(),
            final(self).picked() == Some(index),
    {
        self.selected_index = Some(index);
    }

    /// The picked team, if one is picked and it is among those offered.
    pub fn selected_team(&self) -> (r: Option<&String>)
        ensures
            match self.picked() {
                Some(i) => if i < self.offered().len() {
                    r == Some(&self.offered()[i as int])
                } else {
                    r is None
                },
                None => r is None,
            },
    {
        match self.selected_index {
            Some(i) => if i < self.teams.len() {
                Some(&self.teams[i])
            } else {
                None
            },
            None => None,
        }
    }
}

} // verus!
