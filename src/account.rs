use vstd::prelude::*;

verus! {

/// What a stored account holds, as plain text.
pub struct GsaAccountView {
    pub email: Seq<char>,
    pub first_name: Seq<char>,
    pub adsid: Seq<char>,
    pub xcode_gs_token: Seq<char>,
    pub team_id: Seq<char>,
}

/// The durable record of a signed-in developer account: its email (the key
/// under which it is stored), first name, account id, long-lived developer
/// token and the selected team (empty when none is selected).
#[derive(Debug, Clone)]
pub struct GsaAccount {
    email: String,
    first_name: String,
    adsid: String,
    xcode_gs_token: String,
    team_id: String,
}

impl View for GsaAccount {
    type V = GsaAccountView;

    closed spec fn view(&self) -> GsaAccountView {
        GsaAccountView {
            email: self.email@,
            first_name: self.first_name@,
            adsid: self.adsid@,
            xcode_gs_token: self.xcode_gs_token@,
            team_id: self.team_id@,
        }
    }
}

impl GsaAccount {
    pub fn new(
        email: String,
        first_name: String,
        adsid: String,
        xcode_gs_token: String,
        team_id: String,
    ) -> (r: Self)
        ensures
            r@ == (GsaAccountView {
                email: email@,
                first_name: first_name@,
                adsid: adsid@,
                xcode_gs_token: xcode_gs_token@,
                team_id: team_id@,
            }),
    {
        GsaAccount { email, first_name, adsid, xcode_gs_token, team_id }
    }

    pub fn email(&self) -> (r: &String)
        ensures
            r@ == self@.email,
    {
        &self.email
    }

    pub fn first_name(&self) -> (r: &String)
        ensures
            r@ == self@.first_name,
    {
        &self.first_name
    }

    pub fn adsid(&self) -> (r: &String)
        ensures
            r@ == self@.adsid,
    {
        &self.adsid
    }

    pub fn xcode_gs_token(&self) -> (r: &String)
        ensures
            r@ == self@.xcode_gs_token,
    {
        &self.xcode_gs_token
    }

    pub fn team_id(&self) -> (r: &String)
        ensures
            r@ == self@.team_id,
    {
        &self.team_id
    }

    /// Replaces the selected team and keeps every other field.
    pub fn set_team_id(&mut self, team_id: String)
        ensures
            final(self)@ == (GsaAccountView { team_id: team_id@, ..old(self)@ }),
    {
        self.team_id = team_id;
    }
}

} // verus!

verus! {

/// The stored record for a freshly signed-in account: its profile fields and
/// developer token, with the first team that the provisioning service lists
/// selected, or no team when it lists none.
pub fn account_from_session(
    email: String,
    first_name: String,
    adsid: String,
    xcode_gs_token: String,
    team_ids: &Vec<String>,
) -> (r: GsaAccount)
    ensures
        r@ == (GsaAccountView {
            email: email@,
            first_name: first_name@,
            adsid: adsid@,
            xcode_gs_token: xcode_gs_token@,
            team_id: if team_ids@.len() == 0 {
                Seq::<char>::empty()
            } else {
                team_ids@[0]@
            },
        }),
{
    let team_id = if team_ids.len() == 0 {
        String::new()
    } else {
        team_ids[0].clone()
    };
    GsaAccount::new(email, first_name, adsid, xcode_gs_token, team_id)
}

} // verus!
